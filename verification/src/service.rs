use vstd::prelude::*;

use crate::api::{
    language_code, language_from_code, lemma_language_code_round_trip, lemma_theme_name_round_trip,
    theme_from_name, theme_name, AppSettingsSnapshot, BootstrapData, ConnectionDraft,
    ConnectionDraftView, ConnectionSession, ConnectionSummary, DatabaseKind, QuerySnapshot,
    TablePreview, TableSummary, ThemeMode, UiLanguage,
};
use crate::model::{
    default_ssl_mode, ColumnInfo, ConnectionConfig, ConnectionConfigView, DatabaseType, QueryResult,
    ServerInfo, SslMode, StoredSettings, TableDataResult, TableInfo, CellValue,
};
use crate::store::{saved_into, ConnectionStore, ConnectionStoreView};
use crate::text::{
    decimal_text, i64_text, lemma_trim_idempotent, optional_text, trim, trim_spec,
    trimmed_or_none, u64_text,
};

verus! {

/// The errors of the backend service that the library decides on.
#[derive(Debug)]
pub enum ServiceError {
    /// A connection was saved or tested without a name.
    NameRequired,
    /// No saved connection has this id.
    ConnectionNotFound(String),
    /// A new connection needed an id, and the operating system gave no
    /// random bytes to make one.
    IdUnavailable,
}

impl ServiceError {
    /// The message shown to the user.
    pub fn message(&self) -> (text: String)
        ensures
            text@ == service_error_message(*self),
    {
        match self {
            ServiceError::NameRequired => "connection name is required".to_owned(),
            ServiceError::ConnectionNotFound(id) => {
                let mut text = "connection ".to_owned();
                text.append(id.as_str());
                text.append(" was not found");
                text
            },
            ServiceError::IdUnavailable => "could not retrieve random bytes for a connection id".to_owned(),
        }
    }
}

/// The message of each service error.
pub open spec fn service_error_message(e: ServiceError) -> Seq<char> {
    match e {
        ServiceError::NameRequired => "connection name is required"@,
        ServiceError::ConnectionNotFound(id) => "connection "@ + id@ + " was not found"@,
        ServiceError::IdUnavailable => "could not retrieve random bytes for a connection id"@,
    }
}

/// A lowercase hexadecimal digit.
pub open spec fn is_lower_hex(c: char) -> bool {
    ('0' <= c <= '9') || ('a' <= c <= 'f')
}

/// The hyphenated lowercase text of a random (version 4) UUID:
/// `xxxxxxxx-xxxx-4xxx-Nxxx-xxxxxxxxxxxx` with `N` one of `8`, `9`, `a`, `b`.
pub open spec fn is_uuid_v4_text(s: Seq<char>) -> bool {
    &&& s.len() == 36
    &&& forall|i: int|
        0 <= i < 36 ==> if i == 8 || i == 13 || i == 18 || i == 23 {
            #[trigger] s[i] == '-'
        } else {
            is_lower_hex(s[i])
        }
    &&& s[14] == '4'
    &&& (s[19] == '8' || s[19] == '9' || s[19] == 'a' || s[19] == 'b')
}

/// The lowercase hexadecimal digit of a nibble.
pub open spec fn hex_digit(n: u8) -> char {
    if n < 10 {
        ((48 + n) as u8) as char
    } else {
        ((87 + n) as u8) as char
    }
}

/// The 16 bytes with the version of a random UUID (4) in the high nibble
/// of byte 6 and the RFC 4122 variant (binary `10`) in the top bits of
/// byte 8, as `uuid::Builder::from_random_bytes` sets them.
pub open spec fn v4_bytes(b: Seq<u8>) -> Seq<u8> {
    b.update(6, (b[6] & 0x0f) | 0x40).update(8, (b[8] & 0x3f) | 0x80)
}

/// The 32 lowercase hexadecimal digits of 16 bytes, high nibble first.
pub open spec fn simple_hex(b: Seq<u8>) -> Seq<char> {
    Seq::new(
        32,
        |i: int|
            if i % 2 == 0 {
                hex_digit(b[i / 2] >> 4)
            } else {
                hex_digit(b[i / 2] & 0x0f)
            },
    )
}

/// 32 hexadecimal digits grouped 8-4-4-4-12 by hyphens.
pub open spec fn hyphenated(s: Seq<char>) -> Seq<char> {
    Seq::new(
        36,
        |i: int|
            if i < 8 {
                s[i]
            } else if i == 8 || i == 13 || i == 18 || i == 23 {
                '-'
            } else if i < 13 {
                s[i - 1]
            } else if i < 18 {
                s[i - 2]
            } else if i < 23 {
                s[i - 3]
            } else {
                s[i - 4]
            },
    )
}

/// The text of the random UUID made from 16 random bytes.
pub open spec fn uuid_v4_text(b: Seq<u8>) -> Seq<char> {
    hyphenated(simple_hex(v4_bytes(b)))
}

/// `getrandom::fill` on 16 bytes: random bytes from the operating system,
/// or nothing when it cannot give them. Which bytes come is chance.
#[verifier::external_body]
fn random_bytes() -> (res: Option<[u8; 16]>) {
    let mut bytes = [0u8; 16];
    match getrandom::fill(&mut bytes) {
        Ok(()) => Some(bytes),
        Err(_) => None,
    }
}

/// `uuid::Builder::from_random_bytes(bytes).into_uuid().to_string()`: the
/// random UUID of the bytes, with its version and variant bits set,
/// written as lowercase hexadecimal grouped by hyphens.
#[verifier::external_body]
fn uuid_text_from_random_bytes(bytes: [u8; 16]) -> (text: String)
    ensures
        text@ == uuid_v4_text(bytes@),
{
    uuid::Builder::from_random_bytes(bytes).into_uuid().to_string()
}

proof fn lemma_hex_digit(n: u8)
    requires
        n < 16,
    ensures
        is_lower_hex(hex_digit(n)),
        n == 4 ==> hex_digit(n) == '4',
        n == 8 ==> hex_digit(n) == '8',
        n == 9 ==> hex_digit(n) == '9',
        n == 10 ==> hex_digit(n) == 'a',
        n == 11 ==> hex_digit(n) == 'b',
{
}

/// Every random UUID text has the shape of a version 4 UUID.
pub proof fn lemma_uuid_v4_text_shape(b: Seq<u8>)
    requires
        b.len() == 16,
    ensures
        is_uuid_v4_text(uuid_v4_text(b)),
{
    let v = v4_bytes(b);
    let h = simple_hex(v);
    let t = uuid_v4_text(b);
    assert forall|k: int| 0 <= k < 16 implies (#[trigger] v[k]) >> 4 < 16 && v[k] & 0x0f < 16 by {
        let x = v[k];
        assert(x >> 4 < 16 && x & 0x0f < 16) by (bit_vector);
    }
    assert forall|i: int| 0 <= i < 32 implies is_lower_hex(#[trigger] h[i]) by {
        lemma_hex_digit(v[i / 2] >> 4);
        lemma_hex_digit(v[i / 2] & 0x0f);
    }
    assert forall|i: int|
        0 <= i < 36 implies if i == 8 || i == 13 || i == 18 || i == 23 {
            #[trigger] t[i] == '-'
        } else {
            is_lower_hex(t[i])
        } by {
        if i < 8 {
            assert(is_lower_hex(h[i]));
        } else if i < 13 && i != 8 {
            assert(is_lower_hex(h[i - 1]));
        } else if i < 18 && i != 13 {
            assert(is_lower_hex(h[i - 2]));
        } else if i < 23 && i != 18 {
            assert(is_lower_hex(h[i - 3]));
        } else if i != 23 {
            assert(is_lower_hex(h[i - 4]));
        }
    }
    let x6 = b[6];
    let x8 = b[8];
    assert(((x6 & 0x0f) | 0x40) >> 4 == 4) by (bit_vector);
    assert(8 <= ((x8 & 0x3f) | 0x80) >> 4 <= 11) by (bit_vector);
    assert(t[14] == h[12]);
    assert(v[6] == (x6 & 0x0f) | 0x40);
    lemma_hex_digit(v[6] >> 4);
    assert(t[19] == h[16]);
    assert(v[8] == (x8 & 0x3f) | 0x80);
    lemma_hex_digit(v[8] >> 4);
}

/// A fresh random connection id, or nothing when the operating system
/// gives no random bytes.
fn new_connection_id() -> (id: Option<String>)
    ensures
        id matches Some(text) ==> is_uuid_v4_text(text@),
{
    match random_bytes() {
        Some(bytes) => {
            let text = uuid_text_from_random_bytes(bytes);
            proof {
                lemma_uuid_v4_text_shape(bytes@);
            }
            Some(text)
        },
        None => None,
    }
}

/// The driver's name for a kind of database.
pub open spec fn database_type_of(kind: DatabaseKind) -> DatabaseType {
    match kind {
        DatabaseKind::PostgreSql => DatabaseType::PostgreSQL,
        DatabaseKind::MySql => DatabaseType::MySQL,
        DatabaseKind::MariaDb => DatabaseType::MariaDB,
        DatabaseKind::Sqlite => DatabaseType::SQLite,
        DatabaseKind::Redis => DatabaseType::Redis,
    }
}

/// The interface's name for a driver's kind of database.
pub open spec fn database_kind_of(kind: DatabaseType) -> DatabaseKind {
    match kind {
        DatabaseType::PostgreSQL => DatabaseKind::PostgreSql,
        DatabaseType::MySQL => DatabaseKind::MySql,
        DatabaseType::MariaDB => DatabaseKind::MariaDb,
        DatabaseType::SQLite => DatabaseKind::Sqlite,
        DatabaseType::Redis => DatabaseKind::Redis,
    }
}

pub fn map_database_kind(kind: DatabaseKind) -> (res: DatabaseType)
    ensures
        res == database_type_of(kind),
{
    match kind {
        DatabaseKind::PostgreSql => DatabaseType::PostgreSQL,
        DatabaseKind::MySql => DatabaseType::MySQL,
        DatabaseKind::MariaDb => DatabaseType::MariaDB,
        DatabaseKind::Sqlite => DatabaseType::SQLite,
        DatabaseKind::Redis => DatabaseType::Redis,
    }
}

pub fn map_database_type(kind: DatabaseType) -> (res: DatabaseKind)
    ensures
        res == database_kind_of(kind),
{
    match kind {
        DatabaseType::PostgreSQL => DatabaseKind::PostgreSql,
        DatabaseType::MySQL => DatabaseKind::MySql,
        DatabaseType::MariaDB => DatabaseKind::MariaDb,
        DatabaseType::SQLite => DatabaseKind::Sqlite,
        DatabaseType::Redis => DatabaseKind::Redis,
    }
}

/// The two names of a kind of database correspond one to one.
pub proof fn lemma_database_kind_bijection(kind: DatabaseKind, ty: DatabaseType)
    ensures
        database_kind_of(database_type_of(kind)) == kind,
        database_type_of(database_kind_of(ty)) == ty,
{
}

/// An optional text trimmed, or dropped when only white space is left.
pub open spec fn sanitized(value: Option<Seq<char>>) -> Option<Seq<char>> {
    match value {
        Some(text) => optional_text(text),
        None => None,
    }
}

pub fn sanitize_optional(value: Option<String>) -> (res: Option<String>)
    ensures
        res.deep_view() == sanitized(value.deep_view()),
{
    match value {
        Some(text) => trimmed_or_none(text.as_str()),
        None => None,
    }
}

/// The configuration saved for a draft, given the id it is saved under.
pub open spec fn config_from_draft(d: ConnectionDraftView, id: Seq<char>) -> ConnectionConfigView {
    ConnectionConfigView {
        id: id,
        name: trim_spec(d.name),
        database_type: database_type_of(d.database_kind),
        host: sanitized(d.host),
        port: d.port,
        database: sanitized(d.database),
        username: sanitized(d.username),
        password: sanitized(d.password),
        ssl_mode: default_ssl_mode(),
        connection_timeout: 30,
        ssh_tunnel: None,
        color_tag: sanitized(d.color_tag),
        group: sanitized(d.group),
        last_connected_at: None,
    }
}

/// What is kept of an optional text: nothing stays nothing, a text of only
/// white space is dropped, and any other text is kept trimmed.
pub proof fn lemma_sanitized_keeps_trimmed_text(value: Option<Seq<char>>)
    ensures
        value is None ==> sanitized(value) is None,
        value matches Some(t) ==> (trim_spec(t).len() == 0 ==> sanitized(value) is None),
        value matches Some(t) ==> (trim_spec(t).len() != 0 ==> sanitized(value) == Some(trim_spec(t))),
{
}

/// A draft is stored under the given id with its name trimmed, its kind of
/// database, its port, and each optional text (host, database, user name,
/// password, group, colour tag) kept as [`lemma_sanitized_keeps_trimmed_text`]
/// says; a new configuration has the default SSL mode, no SSH tunnel and no
/// time of connecting.
pub proof fn lemma_saved_config_fields(d: ConnectionDraftView, id: Seq<char>)
    ensures
        config_from_draft(d, id).id == id,
        config_from_draft(d, id).name == trim_spec(d.name),
        database_kind_of(config_from_draft(d, id).database_type) == d.database_kind,
        config_from_draft(d, id).port == d.port,
        config_from_draft(d, id).host == sanitized(d.host),
        config_from_draft(d, id).database == sanitized(d.database),
        config_from_draft(d, id).username == sanitized(d.username),
        config_from_draft(d, id).password == sanitized(d.password),
        config_from_draft(d, id).group == sanitized(d.group),
        config_from_draft(d, id).color_tag == sanitized(d.color_tag),
        config_from_draft(d, id).ssh_tunnel is None,
        config_from_draft(d, id).last_connected_at is None,
{
}

/// Checks a draft and turns it into the configuration to store: the name
/// is trimmed and must not be empty, empty optional texts are dropped, and
/// a draft without an id gets a fresh random one. A draft with a name and
/// an id is always turned into a configuration; a draft with a name and
/// no id fails only when no random id can be drawn.
pub fn build_connection_config(draft: ConnectionDraft) -> (res: Result<ConnectionConfig, ServiceError>)
    ensures
        (res matches Err(e) && e is NameRequired) <==> trim_spec(draft.name@).len() == 0,
        res matches Err(e) ==> (e is NameRequired || (e is IdUnavailable && draft.id is None)),
        (trim_spec(draft.name@).len() != 0 && draft.id is Some) ==> res is Ok,
        res matches Ok(config) ==> {
            &&& config@ == config_from_draft(draft@, config@.id)
            &&& config@.name == trim_spec(draft@.name)
            &&& config@.port == draft@.port
            &&& config@.host == sanitized(draft@.host)
            &&& config@.database == sanitized(draft@.database)
            &&& config@.username == sanitized(draft@.username)
            &&& config@.password == sanitized(draft@.password)
            &&& config@.group == sanitized(draft@.group)
            &&& config@.color_tag == sanitized(draft@.color_tag)
            &&& match draft.id {
                Some(id) => config@.id == id@,
                None => is_uuid_v4_text(config@.id),
            }
        },
{
    let name = trim(draft.name.as_str());
    if name.is_empty() {
        return Err(ServiceError::NameRequired);
    }
    let name = name.to_owned();
    let id = match draft.id {
        Some(id) => id,
        None => match new_connection_id() {
            Some(id) => id,
            None => return Err(ServiceError::IdUnavailable),
        },
    };
    Ok(ConnectionConfig {
        id: id,
        name: name,
        database_type: map_database_kind(draft.database_kind),
        host: sanitize_optional(draft.host),
        port: draft.port,
        database: sanitize_optional(draft.database),
        username: sanitize_optional(draft.username),
        password: sanitize_optional(draft.password),
        ssl_mode: SslMode::default(),
        connection_timeout: 30,
        ssh_tunnel: None,
        color_tag: sanitize_optional(draft.color_tag),
        group: sanitize_optional(draft.group),
        last_connected_at: None,
    })
}

/// The draft the edit form shows for a stored configuration.
pub open spec fn draft_of_config(c: ConnectionConfigView) -> ConnectionDraftView {
    ConnectionDraftView {
        id: Some(c.id),
        name: c.name,
        database_kind: database_kind_of(c.database_type),
        host: c.host,
        port: c.port,
        database: c.database,
        username: c.username,
        password: c.password,
        group: c.group,
        color_tag: c.color_tag,
    }
}

pub fn map_connection_draft(config: ConnectionConfig) -> (draft: ConnectionDraft)
    ensures
        draft@ == draft_of_config(config@),
{
    ConnectionDraft {
        id: Some(config.id),
        name: config.name,
        database_kind: map_database_type(config.database_type),
        host: config.host,
        port: config.port,
        database: config.database,
        username: config.username,
        password: config.password,
        group: config.group,
        color_tag: config.color_tag,
    }
}

/// The sidebar entry of a stored configuration: its fields but the
/// credentials, the port and the SSH settings.
pub open spec fn summary_of(config: ConnectionConfig) -> ConnectionSummary {
    ConnectionSummary {
        id: config.id,
        name: config.name,
        database_kind: database_kind_of(config.database_type),
        host: config.host,
        database: config.database,
        group: config.group,
        color_tag: config.color_tag,
        last_connected_at: config.last_connected_at,
    }
}

/// A sidebar entry shows its configuration's id, name, kind of database,
/// host, database, group, colour tag and time of connecting, each as
/// stored.
pub proof fn lemma_summary_fields(config: ConnectionConfig)
    ensures
        summary_of(config).id == config.id,
        summary_of(config).name == config.name,
        database_type_of(summary_of(config).database_kind) == config.database_type,
        summary_of(config).host == config.host,
        summary_of(config).database == config.database,
        summary_of(config).group == config.group,
        summary_of(config).color_tag == config.color_tag,
        summary_of(config).last_connected_at == config.last_connected_at,
{
}

pub fn map_connection_summary(config: ConnectionConfig) -> (summary: ConnectionSummary)
    ensures
        summary == summary_of(config),
        summary.id == config.id,
        summary.name == config.name,
        database_type_of(summary.database_kind) == config.database_type,
        summary.host == config.host,
        summary.database == config.database,
        summary.group == config.group,
        summary.color_tag == config.color_tag,
        summary.last_connected_at == config.last_connected_at,
{
    proof {
        lemma_summary_fields(config);
    }
    ConnectionSummary {
        id: config.id,
        name: config.name,
        database_kind: map_database_type(config.database_type),
        host: config.host,
        database: config.database,
        group: config.group,
        color_tag: config.color_tag,
        last_connected_at: config.last_connected_at,
    }
}

proof fn lemma_sanitized_idempotent(value: Option<Seq<char>>)
    ensures
        sanitized(sanitized(value)) == sanitized(value),
{
    if let Some(text) = value {
        lemma_trim_idempotent(text);
    }
}

/// Saving a connection as it was loaded stores it unchanged: the draft the
/// form shows for a saved configuration is saved under the same id as the
/// same configuration.
pub proof fn lemma_reload_and_save_is_identity(d: ConnectionDraftView, id: Seq<char>)
    requires
        trim_spec(d.name).len() != 0,
    ensures
        trim_spec(draft_of_config(config_from_draft(d, id)).name).len() != 0,
        config_from_draft(draft_of_config(config_from_draft(d, id)), id) == config_from_draft(d, id),
{
    lemma_trim_idempotent(d.name);
    lemma_sanitized_idempotent(d.host);
    lemma_sanitized_idempotent(d.database);
    lemma_sanitized_idempotent(d.username);
    lemma_sanitized_idempotent(d.password);
    lemma_sanitized_idempotent(d.group);
    lemma_sanitized_idempotent(d.color_tag);
    lemma_database_kind_bijection(d.database_kind, database_type_of(d.database_kind));
}

/// What `str::to_lowercase` gives for a text: the Unicode lowercase
/// mapping of every character.
pub uninterp spec fn lowercase(s: Seq<char>) -> Seq<char>;

/// An ASCII text with its capital letters made small.
pub open spec fn ascii_lowercase(s: Seq<char>) -> Seq<char> {
    s.map_values(|c: char| if 'A' <= c <= 'Z' { ((c as u32) + 32) as char } else { c })
}

/// `str::to_lowercase`. Its result is a function of the text; on ASCII
/// text it lowers the capital letters and keeps every other character.
#[verifier::external_body]
fn to_lowercase(s: &str) -> (res: String)
    ensures
        res@ == lowercase(s@),
        vstd::utf8::is_ascii_chars(s@) ==> res@ == ascii_lowercase(s@),
{
    s.to_lowercase()
}

/// The summary the table list shows for a table.
pub fn map_table_summary(table: TableInfo) -> (summary: TableSummary)
    ensures
        summary.name == table.name,
        summary.table_type@ == lowercase(table.table_type@),
        vstd::utf8::is_ascii_chars(table.table_type@) ==> summary.table_type@ == ascii_lowercase(
            table.table_type@,
        ),
        summary.row_count == table.row_count,
{
    TableSummary {
        name: table.name,
        table_type: to_lowercase(table.table_type.as_str()),
        row_count: table.row_count,
    }
}

/// The summaries the table list shows for the tables of a database, in
/// the driver's order.
pub fn map_table_summaries(tables: Vec<TableInfo>) -> (summaries: Vec<TableSummary>)
    ensures
        summaries@.len() == tables@.len(),
        forall|i: int|
            0 <= i < tables@.len() ==> {
                &&& (#[trigger] summaries@[i]).name == tables@[i].name
                &&& summaries@[i].table_type@ == lowercase(tables@[i].table_type@)
                &&& summaries@[i].row_count == tables@[i].row_count
            },
{
    let ghost all = tables@;
    let mut rest = tables;
    let mut summaries: Vec<TableSummary> = Vec::new();
    while rest.len() > 0
        invariant
            summaries@.len() + rest@.len() == all.len(),
            rest@ == all.skip(summaries@.len() as int),
            forall|j: int|
                0 <= j < summaries@.len() ==> {
                    &&& (#[trigger] summaries@[j]).name == all[j].name
                    &&& summaries@[j].table_type@ == lowercase(all[j].table_type@)
                    &&& summaries@[j].row_count == all[j].row_count
                },
        decreases rest@.len(),
    {
        let table = rest.remove(0);
        assert(all[summaries@.len() as int] == table);
        summaries.push(map_table_summary(table));
        assert(rest@ =~= all.skip(summaries@.len() as int));
    }
    summaries
}

/// The text a cell value is shown as.
pub open spec fn value_text(value: CellValue) -> Seq<char> {
    match value {
        CellValue::Null => "NULL"@,
        CellValue::Bool(b) => if b {
            "true"@
        } else {
            "false"@
        },
        CellValue::Integer(i) => decimal_text(i as int),
        CellValue::Float(text) => text@,
        CellValue::String(text) => text@,
        CellValue::Bytes(bytes) => "<"@ + decimal_text(bytes.len() as int) + " bytes>"@,
        CellValue::Timestamp(text) => text@,
        CellValue::Json(text) => text@,
    }
}

/// The text a cell is shown as; a missing value is SQL NULL.
pub open spec fn cell_text(cell: Option<CellValue>) -> Seq<char> {
    match cell {
        Some(value) => value_text(value),
        None => "NULL"@,
    }
}

/// A cell holding text (a string, a float's or timestamp's text, JSON) is
/// shown as exactly that text, the empty text included; only a missing
/// value or SQL NULL is shown as `NULL`.
pub proof fn lemma_text_cells_show_their_text(value: CellValue)
    ensures
        value matches CellValue::String(t) ==> value_text(value) == t@,
        value matches CellValue::Float(t) ==> value_text(value) == t@,
        value matches CellValue::Timestamp(t) ==> value_text(value) == t@,
        value matches CellValue::Json(t) ==> value_text(value) == t@,
        value is Null ==> value_text(value) == "NULL"@,
        cell_text(None) == "NULL"@,
        cell_text(Some(value)) == value_text(value),
{
}

pub fn render_value(value: &CellValue) -> (text: String)
    ensures
        text@ == value_text(*value),
        value matches CellValue::String(t) ==> text@ == t@,
        value matches CellValue::Float(t) ==> text@ == t@,
        value matches CellValue::Timestamp(t) ==> text@ == t@,
        value matches CellValue::Json(t) ==> text@ == t@,
{
    proof {
        lemma_text_cells_show_their_text(*value);
    }
    match value {
        CellValue::Null => "NULL".to_owned(),
        CellValue::Bool(b) => if *b {
            "true".to_owned()
        } else {
            "false".to_owned()
        },
        CellValue::Integer(i) => i64_text(*i),
        CellValue::Float(text) => text.clone(),
        CellValue::String(text) => text.clone(),
        CellValue::Bytes(bytes) => {
            let mut text = "<".to_owned();
            let count = u64_text(bytes.len() as u64);
            text.append(count.as_str());
            text.append(" bytes>");
            text
        },
        CellValue::Timestamp(text) => text.clone(),
        CellValue::Json(text) => text.clone(),
    }
}

/// The texts of a row's cells.
pub open spec fn row_texts(row: Seq<Option<CellValue>>) -> Seq<Seq<char>> {
    row.map_values(|cell: Option<CellValue>| cell_text(cell))
}

/// The texts of every row's cells.
pub open spec fn rows_texts(rows: Seq<Vec<Option<CellValue>>>) -> Seq<Seq<Seq<char>>> {
    rows.map_values(|row: Vec<Option<CellValue>>| row_texts(row@))
}

/// The names of result columns.
pub open spec fn column_names(columns: Seq<ColumnInfo>) -> Seq<Seq<char>> {
    columns.map_values(|c: ColumnInfo| c.name@)
}

fn render_row(row: &Vec<Option<CellValue>>) -> (texts: Vec<String>)
    ensures
        texts.deep_view() == row_texts(row@),
{
    let mut texts: Vec<String> = Vec::new();
    for i in 0..row.len()
        invariant
            texts@.len() == i,
            forall|j: int| 0 <= j < i ==> #[trigger] texts@[j]@ == cell_text(row@[j]),
    {
        let text = match &row[i] {
            Some(value) => render_value(value),
            None => "NULL".to_owned(),
        };
        texts.push(text);
    }
    assert(texts.deep_view() =~= row_texts(row@));
    texts
}

fn render_rows(rows: &Vec<Vec<Option<CellValue>>>) -> (texts: Vec<Vec<String>>)
    ensures
        texts.deep_view() == rows_texts(rows@),
{
    let mut texts: Vec<Vec<String>> = Vec::new();
    for i in 0..rows.len()
        invariant
            texts@.len() == i,
            forall|j: int| 0 <= j < i ==> #[trigger] texts@[j].deep_view() == row_texts(rows@[j]@),
    {
        let row = render_row(&rows[i]);
        texts.push(row);
    }
    assert(texts.deep_view() =~= rows_texts(rows@));
    texts
}

fn column_name_list(columns: &Vec<ColumnInfo>) -> (names: Vec<String>)
    ensures
        names.deep_view() == column_names(columns@),
{
    let mut names: Vec<String> = Vec::new();
    for i in 0..columns.len()
        invariant
            names@.len() == i,
            forall|j: int| 0 <= j < i ==> #[trigger] names@[j]@ == columns@[j].name@,
    {
        names.push(columns[i].name.clone());
    }
    assert(names.deep_view() =~= column_names(columns@));
    names
}

/// The query result as the result pane shows it.
pub fn map_query_snapshot(result: QueryResult) -> (snapshot: QuerySnapshot)
    ensures
        snapshot.columns.deep_view() == column_names(result.columns@),
        snapshot.rows.deep_view() == rows_texts(result.rows@),
        snapshot.rows_affected == result.rows_affected,
        snapshot.execution_time_ms == result.execution_time_ms,
{
    QuerySnapshot {
        columns: column_name_list(&result.columns),
        rows: render_rows(&result.rows),
        rows_affected: result.rows_affected,
        execution_time_ms: result.execution_time_ms,
    }
}

/// A page of a table as the preview pane shows it.
pub fn map_table_preview(data: TableDataResult) -> (preview: TablePreview)
    ensures
        preview.columns.deep_view() == column_names(data.columns@),
        preview.rows.deep_view() == rows_texts(data.rows@),
        preview.total_rows == data.total_rows,
        preview.page == data.page,
        preview.page_size == data.page_size,
{
    TablePreview {
        columns: column_name_list(&data.columns),
        rows: render_rows(&data.rows),
        total_rows: data.total_rows,
        page: data.page,
        page_size: data.page_size,
    }
}

/// The settings snapshot that stored settings stand for.
pub open spec fn snapshot_of(settings: StoredSettings) -> AppSettingsSnapshot {
    AppSettingsSnapshot {
        language: language_from_code(settings.language@),
        theme: theme_from_name(settings.theme@),
    }
}

/// Reads the interface settings from the stored codes.
pub fn settings_snapshot(settings: &StoredSettings) -> (snapshot: AppSettingsSnapshot)
    ensures
        snapshot == snapshot_of(*settings),
{
    AppSettingsSnapshot {
        language: UiLanguage::from_code(settings.language.as_str()),
        theme: ThemeMode::from_str(settings.theme.as_str()),
    }
}

/// Writes a language and a theme into the stored settings and reads them
/// back, as saving the settings does.
pub fn apply_settings(settings: &mut StoredSettings, language: UiLanguage, theme: ThemeMode) -> (snapshot: AppSettingsSnapshot)
    ensures
        final(settings).language@ == language_code(language),
        final(settings).theme@ == theme_name(theme),
        snapshot == snapshot_of(*final(settings)),
        snapshot == (AppSettingsSnapshot { language, theme }),
{
    settings.language = language.as_code().to_owned();
    settings.theme = theme.as_str().to_owned();
    proof {
        lemma_settings_read_back(language, theme);
    }
    settings_snapshot(settings)
}

/// Settings read back after they were written are the settings written.
pub proof fn lemma_settings_read_back(language: UiLanguage, theme: ThemeMode)
    ensures
        language_from_code(language_code(language)) == language,
        theme_from_name(theme_name(theme)) == theme,
{
    lemma_language_code_round_trip(language);
    lemma_theme_name_round_trip(theme);
}

/// Once a language and a theme are saved, the settings the window reads
/// when it opens are that language and that theme.
pub proof fn lemma_bootstrap_reports_saved_settings(
    settings: StoredSettings,
    language: UiLanguage,
    theme: ThemeMode,
)
    requires
        settings.language@ == language_code(language),
        settings.theme@ == theme_name(theme),
    ensures
        snapshot_of(settings) == (AppSettingsSnapshot { language, theme }),
{
    lemma_settings_read_back(language, theme);
}

/// What the window receives when it opens: the stored settings and a
/// summary of every stored connection, in the store's order.
pub fn bootstrap_data(settings: &StoredSettings, connections: Vec<ConnectionConfig>) -> (data: BootstrapData)
    ensures
        data.settings == snapshot_of(*settings),
        data.connections@ == connections@.map_values(|c: ConnectionConfig| summary_of(c)),
{
    let mut rest = connections;
    let ghost all = rest@;
    let mut summaries: Vec<ConnectionSummary> = Vec::new();
    while rest.len() > 0
        invariant
            summaries@.len() + rest@.len() == all.len(),
            rest@ == all.skip(summaries@.len() as int),
            forall|j: int| 0 <= j < summaries@.len() ==> #[trigger] summaries@[j] == summary_of(all[j]),
        decreases rest@.len(),
    {
        let config = rest.remove(0);
        assert(all[summaries@.len() as int] == config);
        summaries.push(map_connection_summary(config));
        assert(rest@ =~= all.skip(summaries@.len() as int));
    }
    assert(summaries@ =~= all.map_values(|c: ConnectionConfig| summary_of(c)));
    BootstrapData { settings: settings_snapshot(settings), connections: summaries }
}

/// The draft for a connection the store was asked for: its form when it
/// was found, and otherwise the error naming the id.
pub fn loaded_draft(id: &str, found: Option<ConnectionConfig>) -> (res: Result<ConnectionDraft, ServiceError>)
    ensures
        found is None ==> (res matches Err(ServiceError::ConnectionNotFound(missing)) && missing@
            == id@),
        found matches Some(config) ==> (res matches Ok(draft) && draft@ == draft_of_config(config@)),
{
    match found {
        Some(config) => Ok(map_connection_draft(config)),
        None => Err(ServiceError::ConnectionNotFound(id.to_owned())),
    }
}

/// The session the window keeps after connecting: the session id and what
/// the server said about itself.
pub fn session_from_server(session_id: String, server: ServerInfo) -> (session: ConnectionSession)
    ensures
        session.session_id == session_id,
        session.server_type == server.server_type,
        session.server_version == server.server_version,
{
    ConnectionSession {
        session_id: session_id,
        server_type: server.server_type,
        server_version: server.server_version,
    }
}

/// `SystemTime::now().duration_since(UNIX_EPOCH)` of std, as whole seconds
/// and the nanoseconds past them: the time since the Unix epoch, or
/// nothing when the clock reads an earlier time. Which time comes out
/// depends on the clock; std documents the nanoseconds as below one second.
#[verifier::external_body]
fn time_since_epoch() -> (res: Option<(u64, u32)>)
    ensures
        res matches Some((_secs, nanos)) ==> nanos < 1_000_000_000,
{
    match std::time::SystemTime::now().duration_since(std::time::UNIX_EPOCH) {
        Ok(elapsed) => Some((elapsed.as_secs(), elapsed.subsec_nanos())),
        Err(_) => None,
    }
}

/// What `DateTime::<Utc>::from_timestamp(secs, nanos)` followed by
/// `to_rfc3339` gives: the RFC 3339 text of that UTC time, or nothing
/// when chrono cannot hold it.
pub uninterp spec fn rfc3339_text(secs: i64, nanos: u32) -> Option<Seq<char>>;

/// A UTC time stamp as chrono writes it: at least a date and a time of day,
/// ending with the offset `+00:00`.
pub open spec fn is_utc_stamp(s: Seq<char>) -> bool {
    &&& s.len() >= 25
    &&& s.subrange(s.len() - 6, s.len() as int) == "+00:00"@
}

/// `chrono::DateTime::<Utc>::from_timestamp(secs, nanos)` and
/// `to_rfc3339` on the result. chrono holds every time up to the end of
/// year 9999 with nanoseconds below one second; for a time after the
/// epoch it writes a year of at least four digits, the date and time of
/// day, and `+00:00`.
#[verifier::external_body]
fn rfc3339_utc(secs: i64, nanos: u32) -> (res: Option<String>)
    ensures
        res.deep_view() == rfc3339_text(secs, nanos),
        0 <= secs <= 253402300799 && nanos < 1_000_000_000 ==> res is Some,
        secs >= 0 ==> (res matches Some(text) ==> is_utc_stamp(text@)),
{
    match chrono::DateTime::<chrono::Utc>::from_timestamp(secs, nanos) {
        Some(time) => Some(time.to_rfc3339()),
        None => None,
    }
}

/// The stamp of a clock reading in whole seconds and nanoseconds since the
/// Unix epoch: chrono's RFC 3339 text of that time, or nothing when the
/// seconds do not fit chrono's signed count or chrono cannot hold the time.
pub open spec fn clock_stamp(secs: u64, nanos: u32) -> Option<Seq<char>> {
    if secs <= 9223372036854775807 {
        rfc3339_text(secs as i64, nanos)
    } else {
        None
    }
}

/// A text that is the stamp of some clock reading after the epoch.
pub open spec fn is_clock_stamp(text: Seq<char>) -> bool {
    exists|s: i64, n: u32| 0 <= s && n < 1_000_000_000 && rfc3339_text(s, n) == Some(text)
}

/// The RFC 3339 UTC stamp of a clock reading.
pub fn stamp_from_clock(secs: u64, nanos: u32) -> (res: Option<String>)
    ensures
        res.deep_view() == clock_stamp(secs, nanos),
        secs > 9223372036854775807 ==> res is None,
        secs <= 253402300799 && nanos < 1_000_000_000 ==> res is Some,
        res matches Some(text) ==> is_utc_stamp(text@),
{
    if secs > 9223372036854775807u64 {
        None
    } else {
        rfc3339_utc(secs as i64, nanos)
    }
}

/// The current time as an RFC 3339 UTC stamp, or nothing when the clock
/// reads before the Unix epoch or beyond what chrono can hold. The stamp is
/// that of the clock's reading.
pub fn current_stamp() -> (res: Option<String>)
    ensures
        res matches Some(text) ==> is_utc_stamp(text@) && is_clock_stamp(text@),
{
    match time_since_epoch() {
        Some((secs, nanos)) => {
            let res = stamp_from_clock(secs, nanos);
            proof {
                if res is Some {
                    assert(rfc3339_text(secs as i64, nanos) == Some(res->0@));
                }
            }
            res
        },
        None => None,
    }
}

/// Records on a configuration when it was connected to: the given time.
pub fn mark_connected_at(config: &mut ConnectionConfig, stamp: String)
    ensures
        final(config)@ == (ConnectionConfigView { last_connected_at: Some(stamp@), ..old(config)@ }),
{
    config.last_connected_at = Some(stamp);
}

/// Records on a configuration that it was connected to at a clock reading:
/// the stamp of that reading, when it has one; otherwise the configuration
/// stays as it was and the result is `false`.
pub fn mark_connected_with_clock(config: &mut ConnectionConfig, secs: u64, nanos: u32) -> (marked: bool)
    ensures
        marked == clock_stamp(secs, nanos) is Some,
        marked ==> is_utc_stamp(clock_stamp(secs, nanos)->0),
        marked ==> final(config)@ == (ConnectionConfigView {
            last_connected_at: clock_stamp(secs, nanos),
            ..old(config)@
        }),
        !marked ==> final(config)@ == old(config)@,
{
    match stamp_from_clock(secs, nanos) {
        Some(stamp) => {
            mark_connected_at(config, stamp);
            true
        },
        None => false,
    }
}

/// Records on a configuration that it was connected to now: the stamp of
/// the clock's reading. When the clock gives no usable time the
/// configuration stays as it was and the result is `false`.
pub fn mark_connected(config: &mut ConnectionConfig) -> (marked: bool)
    ensures
        marked ==> (final(config)@.last_connected_at matches Some(stamp) && is_utc_stamp(stamp)
            && is_clock_stamp(stamp)),
        marked ==> final(config)@ == (ConnectionConfigView {
            last_connected_at: final(config)@.last_connected_at,
            ..old(config)@
        }),
        !marked ==> final(config)@ == old(config)@,
{
    match time_since_epoch() {
        Some((secs, nanos)) => {
            let marked = mark_connected_with_clock(config, secs, nanos);
            proof {
                if marked {
                    let stamp = clock_stamp(secs, nanos)->0;
                    assert(rfc3339_text(secs as i64, nanos) == Some(stamp));
                    assert(is_utc_stamp(stamp));
                }
            }
            marked
        },
        None => false,
    }
}

/// The configuration that connecting to an id uses: the stored one, or
/// the error naming the id when the store has none.
pub fn config_to_connect(id: &str, found: Option<ConnectionConfig>) -> (res: Result<ConnectionConfig, ServiceError>)
    ensures
        found is None ==> (res matches Err(ServiceError::ConnectionNotFound(missing)) && missing@
            == id@),
        found matches Some(config) ==> res == Ok::<ConnectionConfig, ServiceError>(config),
{
    match found {
        Some(config) => Ok(config),
        None => Err(ServiceError::ConnectionNotFound(id.to_owned())),
    }
}

/// What connecting ends with once the server has described itself: the
/// configuration stamped with the time of connecting (unchanged when the
/// clock gives no usable time), to be saved, and the session the window
/// keeps.
pub fn complete_connect(config: ConnectionConfig, session_id: String, server: ServerInfo) -> (res: (
    ConnectionConfig,
    ConnectionSession,
))
    ensures
        res.0@ == config@ || ({
            &&& res.0@ == (ConnectionConfigView {
                last_connected_at: res.0@.last_connected_at,
                ..config@
            })
            &&& res.0@.last_connected_at is Some
            &&& is_utc_stamp(res.0@.last_connected_at->0)
            &&& is_clock_stamp(res.0@.last_connected_at->0)
        }),
        res.1.session_id == session_id,
        res.1.server_type == server.server_type,
        res.1.server_version == server.server_version,
{
    let mut updated = config;
    mark_connected(&mut updated);
    (updated, session_from_server(session_id, server))
}

/// Connecting, once the server has described itself: the configuration is
/// stamped with the time of connecting (left as it was when the clock
/// gives no usable time) and saved over the stored one with its id, and
/// the session the window keeps is returned.
pub fn finish_connect(
    store: &mut ConnectionStore,
    config: ConnectionConfig,
    session_id: String,
    server: ServerInfo,
) -> (session: ConnectionSession)
    ensures
        session.session_id == session_id,
        session.server_type == server.server_type,
        session.server_version == server.server_version,
        exists|saved: ConnectionConfig|
            {
                &&& final(store)@ == (ConnectionStoreView {
                    configs: #[trigger] saved_into(old(store)@.configs, saved),
                    ..old(store)@
                })
                &&& (saved@ == config@ || {
                    &&& saved@ == (ConnectionConfigView {
                        last_connected_at: saved@.last_connected_at,
                        ..config@
                    })
                    &&& saved@.last_connected_at is Some
                    &&& is_utc_stamp(saved@.last_connected_at->0)
                    &&& is_clock_stamp(saved@.last_connected_at->0)
                })
            },
{
    let (updated, session) = complete_connect(config, session_id, server);
    let ghost saved = updated;
    store.save_connection(updated);
    assert(store@ == (ConnectionStoreView {
        configs: saved_into(old(store)@.configs, saved),
        ..old(store)@
    }));
    session
}

} // verus!
