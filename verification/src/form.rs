use vstd::prelude::*;

use crate::api::{ConnectionDraft, ConnectionDraftView, DatabaseKind};
use crate::text::{
    all_digits, decimal_text, digit_char, digits_spec, digits_value, is_white_space, optional_text,
    parse_u16, parse_u16_spec, trim_end_spec, trim_spec, trim_start_spec, trimmed_or_none,
    u64_text, unsigned_part,
};

verus! {

/// The texts of the connection form's fields, with the id of the
/// connection being edited (none for a new one) and the chosen kind.
pub struct ConnectionForm {
    pub id: Option<String>,
    pub database_kind: DatabaseKind,
    pub name: String,
    pub host: String,
    pub port: String,
    pub database: String,
    pub username: String,
    pub password: String,
    pub group: String,
    pub color_tag: String,
}

/// The contents of a [`ConnectionForm`].
pub struct ConnectionFormView {
    pub id: Option<Seq<char>>,
    pub database_kind: DatabaseKind,
    pub name: Seq<char>,
    pub host: Seq<char>,
    pub port: Seq<char>,
    pub database: Seq<char>,
    pub username: Seq<char>,
    pub password: Seq<char>,
    pub group: Seq<char>,
    pub color_tag: Seq<char>,
}

impl View for ConnectionForm {
    type V = ConnectionFormView;

    open spec fn view(&self) -> ConnectionFormView {
        ConnectionFormView {
            id: self.id.deep_view(),
            database_kind: self.database_kind,
            name: self.name@,
            host: self.host@,
            port: self.port@,
            database: self.database@,
            username: self.username@,
            password: self.password@,
            group: self.group@,
            color_tag: self.color_tag@,
        }
    }
}

/// An empty form for a new PostgreSQL connection.
pub open spec fn empty_form() -> ConnectionFormView {
    ConnectionFormView {
        id: None,
        database_kind: DatabaseKind::PostgreSql,
        name: Seq::empty(),
        host: Seq::empty(),
        port: Seq::empty(),
        database: Seq::empty(),
        username: Seq::empty(),
        password: Seq::empty(),
        group: Seq::empty(),
        color_tag: Seq::empty(),
    }
}

/// The text a field shows for an optional value: the value, or nothing.
pub open spec fn field_text(value: Option<Seq<char>>) -> Seq<char> {
    match value {
        Some(text) => text,
        None => Seq::empty(),
    }
}

/// The form filled in from a draft.
pub open spec fn form_of_draft(d: ConnectionDraftView) -> ConnectionFormView {
    ConnectionFormView {
        id: d.id,
        database_kind: d.database_kind,
        name: d.name,
        host: field_text(d.host),
        port: match d.port {
            Some(port) => decimal_text(port as int),
            None => Seq::empty(),
        },
        database: field_text(d.database),
        username: field_text(d.username),
        password: field_text(d.password),
        group: field_text(d.group),
        color_tag: field_text(d.color_tag),
    }
}

/// The port a field's text gives: its trimmed text parsed as a number.
pub open spec fn port_of_text(text: Seq<char>) -> Option<u16> {
    match optional_text(text) {
        Some(t) => parse_u16_spec(t),
        None => None,
    }
}

/// The draft a form gives: the name as typed, every other text trimmed and
/// dropped when empty, and the port parsed.
pub open spec fn draft_of_form(f: ConnectionFormView) -> ConnectionDraftView {
    ConnectionDraftView {
        id: f.id,
        name: f.name,
        database_kind: f.database_kind,
        host: optional_text(f.host),
        port: port_of_text(f.port),
        database: optional_text(f.database),
        username: optional_text(f.username),
        password: optional_text(f.password),
        group: optional_text(f.group),
        color_tag: optional_text(f.color_tag),
    }
}

fn copy_text_option(value: &Option<String>) -> (res: Option<String>)
    ensures
        res == *value,
{
    match value {
        Some(text) => Some(text.clone()),
        None => None,
    }
}

fn text_or_empty(value: Option<String>) -> (res: String)
    ensures
        res@ == field_text(value.deep_view()),
{
    match value {
        Some(text) => text,
        None => String::new(),
    }
}

/// The trimmed text of a field, or nothing when it holds only white space.
pub fn optional_string(value: String) -> (res: Option<String>)
    ensures
        res.deep_view() == optional_text(value@),
{
    trimmed_or_none(value.as_str())
}

impl ConnectionForm {
    pub fn new() -> (form: Self)
        ensures
            form@ == empty_form(),
    {
        ConnectionForm {
            id: None,
            database_kind: DatabaseKind::PostgreSql,
            name: String::new(),
            host: String::new(),
            port: String::new(),
            database: String::new(),
            username: String::new(),
            password: String::new(),
            group: String::new(),
            color_tag: String::new(),
        }
    }

    /// Empties the form for a new connection.
    pub fn clear(&mut self)
        ensures
            final(self)@ == empty_form(),
    {
        *self = ConnectionForm::new();
    }

    /// Fills the form in from a draft.
    pub fn populate(&mut self, draft: ConnectionDraft)
        ensures
            final(self)@ == form_of_draft(draft@),
    {
        let ghost d = draft@;
        self.id = draft.id;
        self.database_kind = draft.database_kind;
        self.name = draft.name;
        self.host = text_or_empty(draft.host);
        self.port = match draft.port {
            Some(port) => u64_text(port as u64),
            None => String::new(),
        };
        self.database = text_or_empty(draft.database);
        self.username = text_or_empty(draft.username);
        self.password = text_or_empty(draft.password);
        self.group = text_or_empty(draft.group);
        self.color_tag = text_or_empty(draft.color_tag);
    }

    /// The draft the form's fields give.
    pub fn to_draft(&self) -> (draft: ConnectionDraft)
        ensures
            draft@ == draft_of_form(self@),
    {
        let port = match optional_string(self.port.clone()) {
            Some(text) => parse_u16(text.as_str()),
            None => None,
        };
        ConnectionDraft {
            id: copy_text_option(&self.id),
            name: self.name.clone(),
            database_kind: self.database_kind,
            host: optional_string(self.host.clone()),
            port: port,
            database: optional_string(self.database.clone()),
            username: optional_string(self.username.clone()),
            password: optional_string(self.password.clone()),
            group: optional_string(self.group.clone()),
            color_tag: optional_string(self.color_tag.clone()),
        }
    }
}

proof fn lemma_digits(n: nat)
    ensures
        digits_spec(n).len() > 0,
        all_digits(digits_spec(n)),
        digits_value(digits_spec(n)) == n,
    decreases n,
{
    let c = digit_char(n % 10);
    assert(c as u32 == 48 + n % 10);
    let d = digits_spec(n);
    if n >= 10 {
        lemma_digits(n / 10);
        assert(d.drop_last() =~= digits_spec(n / 10));
        assert(d.last() == c);
        assert(digits_value(d) == (n / 10) * 10 + n % 10);
        assert(n == (n / 10) * 10 + n % 10);
        assert forall|i: int| 0 <= i < d.len() implies crate::text::is_digit(#[trigger] d[i]) by {
            if i < d.len() - 1 {
                assert(d[i] == digits_spec(n / 10)[i]);
            }
        }
    } else {
        assert(d.drop_last() =~= Seq::<char>::empty());
        assert(d.last() == c);
        assert(digits_value(d.drop_last()) == 0);
        assert(digits_value(d) == n);
    }
}

proof fn lemma_trim_of_digits(d: Seq<char>)
    requires
        d.len() > 0,
        all_digits(d),
    ensures
        trim_spec(d) == d,
        optional_text(d) == Some(d),
        unsigned_part(d) == d,
{
    assert(!is_white_space(d[0]));
    assert(trim_start_spec(d) == d);
    assert(!is_white_space(d[d.len() - 1]));
    assert(trim_end_spec(d) == d);
}

/// A port written into the form reads back as the same port.
pub proof fn lemma_port_text_round_trip(port: u16)
    ensures
        port_of_text(decimal_text(port as int)) == Some(port),
{
    lemma_digits(port as nat);
    lemma_trim_of_digits(digits_spec(port as nat));
}

proof fn lemma_optional_field_round_trip(value: Option<Seq<char>>)
    requires
        value matches Some(t) ==> optional_text(t) == Some(t),
    ensures
        optional_text(field_text(value)) == value,
{
    if value is None {
        assert(trim_start_spec(Seq::<char>::empty()) == Seq::<char>::empty());
        assert(trim_end_spec(Seq::<char>::empty()) == Seq::<char>::empty());
    }
}

/// Opening a saved connection in the form and saving it without edits
/// stores the same configuration under the same id.
pub proof fn lemma_edit_form_round_trip(d: ConnectionDraftView, id: Seq<char>)
    requires
        trim_spec(d.name).len() != 0,
    ensures
        ({
            let saved = crate::service::config_from_draft(d, id);
            let edited = draft_of_form(form_of_draft(crate::service::draft_of_config(saved)));
            &&& trim_spec(edited.name).len() != 0
            &&& edited.id == Some(id)
            &&& crate::service::config_from_draft(edited, id) == saved
        }),
{
    let saved = crate::service::config_from_draft(d, id);
    crate::service::lemma_reload_and_save_is_identity(d, id);
    lemma_sanitized_field(d.host);
    lemma_sanitized_field(d.database);
    lemma_sanitized_field(d.username);
    lemma_sanitized_field(d.password);
    lemma_sanitized_field(d.group);
    lemma_sanitized_field(d.color_tag);
    if let Some(port) = d.port {
        lemma_port_text_round_trip(port);
    } else {
        assert(trim_start_spec(Seq::<char>::empty()) == Seq::<char>::empty());
        assert(trim_end_spec(Seq::<char>::empty()) == Seq::<char>::empty());
    }
}

proof fn lemma_sanitized_field(value: Option<Seq<char>>)
    ensures
        optional_text(field_text(crate::service::sanitized(value))) == crate::service::sanitized(value),
{
    let s = crate::service::sanitized(value);
    if let Some(t) = s {
        crate::text::lemma_trim_idempotent(value->0);
    }
    lemma_optional_field_round_trip(s);
}

} // verus!
