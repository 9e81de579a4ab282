use vstd::prelude::*;

use crate::text::same_text;

verus! {

/// The languages the interface is translated into.
#[derive(Clone, Copy, Debug, PartialEq, Eq, Hash, Structural)]
pub enum UiLanguage {
    English,
    Spanish,
    Portuguese,
    French,
    German,
    Russian,
    Ukrainian,
    Mandarin,
    Hindi,
    Japanese,
    Korean,
}

/// The locale code under which a language is stored in the settings.
pub open spec fn language_code(language: UiLanguage) -> Seq<char> {
    match language {
        UiLanguage::English => "en"@,
        UiLanguage::Spanish => "es"@,
        UiLanguage::Portuguese => "pt-PT"@,
        UiLanguage::French => "fr"@,
        UiLanguage::German => "de"@,
        UiLanguage::Russian => "ru"@,
        UiLanguage::Ukrainian => "uk"@,
        UiLanguage::Mandarin => "zh-Hans"@,
        UiLanguage::Hindi => "hi"@,
        UiLanguage::Japanese => "ja"@,
        UiLanguage::Korean => "ko"@,
    }
}

/// The language a stored locale code stands for; short codes `pt` and `zh`
/// are accepted too, and every unknown code falls back to English.
pub open spec fn language_from_code(code: Seq<char>) -> UiLanguage {
    if code == "es"@ {
        UiLanguage::Spanish
    } else if code == "pt"@ || code == "pt-PT"@ {
        UiLanguage::Portuguese
    } else if code == "fr"@ {
        UiLanguage::French
    } else if code == "de"@ {
        UiLanguage::German
    } else if code == "ru"@ {
        UiLanguage::Russian
    } else if code == "uk"@ {
        UiLanguage::Ukrainian
    } else if code == "zh"@ || code == "zh-Hans"@ {
        UiLanguage::Mandarin
    } else if code == "hi"@ {
        UiLanguage::Hindi
    } else if code == "ja"@ {
        UiLanguage::Japanese
    } else if code == "ko"@ {
        UiLanguage::Korean
    } else {
        UiLanguage::English
    }
}

impl UiLanguage {
    pub fn as_code(self) -> (code: &'static str)
        ensures
            code@ == language_code(self),
    {
        match self {
            UiLanguage::English => "en",
            UiLanguage::Spanish => "es",
            UiLanguage::Portuguese => "pt-PT",
            UiLanguage::French => "fr",
            UiLanguage::German => "de",
            UiLanguage::Russian => "ru",
            UiLanguage::Ukrainian => "uk",
            UiLanguage::Mandarin => "zh-Hans",
            UiLanguage::Hindi => "hi",
            UiLanguage::Japanese => "ja",
            UiLanguage::Korean => "ko",
        }
    }

    pub fn from_code(value: &str) -> (language: Self)
        ensures
            language == language_from_code(value@),
    {
        if same_text(value, "es") {
            UiLanguage::Spanish
        } else if same_text(value, "pt") || same_text(value, "pt-PT") {
            UiLanguage::Portuguese
        } else if same_text(value, "fr") {
            UiLanguage::French
        } else if same_text(value, "de") {
            UiLanguage::German
        } else if same_text(value, "ru") {
            UiLanguage::Russian
        } else if same_text(value, "uk") {
            UiLanguage::Ukrainian
        } else if same_text(value, "zh") || same_text(value, "zh-Hans") {
            UiLanguage::Mandarin
        } else if same_text(value, "hi") {
            UiLanguage::Hindi
        } else if same_text(value, "ja") {
            UiLanguage::Japanese
        } else if same_text(value, "ko") {
            UiLanguage::Korean
        } else {
            UiLanguage::English
        }
    }
}

/// Reading back the code of a language gives that language again.
pub proof fn lemma_language_code_round_trip(language: UiLanguage)
    ensures
        language_from_code(language_code(language)) == language,
{
    reveal_strlit("en");
    reveal_strlit("es");
    reveal_strlit("pt");
    reveal_strlit("pt-PT");
    reveal_strlit("fr");
    reveal_strlit("de");
    reveal_strlit("ru");
    reveal_strlit("uk");
    reveal_strlit("zh");
    reveal_strlit("zh-Hans");
    reveal_strlit("hi");
    reveal_strlit("ja");
    reveal_strlit("ko");
    assert("en"@ =~= seq!['e', 'n']);
    assert("es"@ =~= seq!['e', 's']);
    assert("pt"@ =~= seq!['p', 't']);
    assert("pt-PT"@ =~= seq!['p', 't', '-', 'P', 'T']);
    assert("fr"@ =~= seq!['f', 'r']);
    assert("de"@ =~= seq!['d', 'e']);
    assert("ru"@ =~= seq!['r', 'u']);
    assert("uk"@ =~= seq!['u', 'k']);
    assert("zh"@ =~= seq!['z', 'h']);
    assert("zh-Hans"@ =~= seq!['z', 'h', '-', 'H', 'a', 'n', 's']);
    assert("hi"@ =~= seq!['h', 'i']);
    assert("ja"@ =~= seq!['j', 'a']);
    assert("ko"@ =~= seq!['k', 'o']);
}

/// The colour themes of the window.
#[derive(Clone, Copy, Debug, PartialEq, Eq, Structural)]
pub enum ThemeMode {
    Graphite,
    System,
}

/// The name under which a theme is stored in the settings.
pub open spec fn theme_name(theme: ThemeMode) -> Seq<char> {
    match theme {
        ThemeMode::Graphite => "graphite"@,
        ThemeMode::System => "system"@,
    }
}

/// The theme a stored name stands for; anything but `system` is the
/// graphite theme.
pub open spec fn theme_from_name(name: Seq<char>) -> ThemeMode {
    if name == "system"@ {
        ThemeMode::System
    } else {
        ThemeMode::Graphite
    }
}

impl ThemeMode {
    pub fn as_str(self) -> (name: &'static str)
        ensures
            name@ == theme_name(self),
    {
        match self {
            ThemeMode::Graphite => "graphite",
            ThemeMode::System => "system",
        }
    }

    pub fn from_str(value: &str) -> (theme: Self)
        ensures
            theme == theme_from_name(value@),
    {
        if same_text(value, "system") {
            ThemeMode::System
        } else {
            ThemeMode::Graphite
        }
    }
}

/// Reading back the name of a theme gives that theme again.
pub proof fn lemma_theme_name_round_trip(theme: ThemeMode)
    ensures
        theme_from_name(theme_name(theme)) == theme,
{
    reveal_strlit("graphite");
    reveal_strlit("system");
    assert("graphite"@.len() != "system"@.len());
}

/// The database engines a connection can point at.
#[derive(Clone, Copy, Debug, PartialEq, Eq, Structural)]
pub enum DatabaseKind {
    PostgreSql,
    MySql,
    MariaDb,
    Sqlite,
    Redis,
}

/// The interface settings: language and theme.
#[derive(Clone, Copy, Debug, PartialEq, Eq, Structural)]
pub struct AppSettingsSnapshot {
    pub language: UiLanguage,
    pub theme: ThemeMode,
}

/// A connection as the edit form holds it.
#[derive(Clone, Debug)]
pub struct ConnectionDraft {
    pub id: Option<String>,
    pub name: String,
    pub database_kind: DatabaseKind,
    pub host: Option<String>,
    pub port: Option<u16>,
    pub database: Option<String>,
    pub username: Option<String>,
    pub password: Option<String>,
    pub group: Option<String>,
    pub color_tag: Option<String>,
}

/// The contents of a [`ConnectionDraft`], its texts as character
/// sequences.
pub struct ConnectionDraftView {
    pub id: Option<Seq<char>>,
    pub name: Seq<char>,
    pub database_kind: DatabaseKind,
    pub host: Option<Seq<char>>,
    pub port: Option<u16>,
    pub database: Option<Seq<char>>,
    pub username: Option<Seq<char>>,
    pub password: Option<Seq<char>>,
    pub group: Option<Seq<char>>,
    pub color_tag: Option<Seq<char>>,
}

impl View for ConnectionDraft {
    type V = ConnectionDraftView;

    open spec fn view(&self) -> ConnectionDraftView {
        ConnectionDraftView {
            id: self.id.deep_view(),
            name: self.name@,
            database_kind: self.database_kind,
            host: self.host.deep_view(),
            port: self.port,
            database: self.database.deep_view(),
            username: self.username.deep_view(),
            password: self.password.deep_view(),
            group: self.group.deep_view(),
            color_tag: self.color_tag.deep_view(),
        }
    }
}

/// A saved connection as the sidebar lists it.
#[derive(Clone, Debug)]
pub struct ConnectionSummary {
    pub id: String,
    pub name: String,
    pub database_kind: DatabaseKind,
    pub host: Option<String>,
    pub database: Option<String>,
    pub group: Option<String>,
    pub color_tag: Option<String>,
    pub last_connected_at: Option<String>,
}

/// What the window needs when it opens: the settings and the saved
/// connections.
#[derive(Clone, Debug)]
pub struct BootstrapData {
    pub settings: AppSettingsSnapshot,
    pub connections: Vec<ConnectionSummary>,
}

/// An open session on a database server.
#[derive(Clone, Debug)]
pub struct ConnectionSession {
    pub session_id: String,
    pub server_type: String,
    pub server_version: String,
}

/// A table of a database, as the table list shows it.
#[derive(Clone, Debug)]
pub struct TableSummary {
    pub name: String,
    pub table_type: String,
    pub row_count: Option<i64>,
}

/// The rendered result of a query: every cell as text.
#[derive(Clone, Debug)]
pub struct QuerySnapshot {
    pub columns: Vec<String>,
    pub rows: Vec<Vec<String>>,
    pub rows_affected: Option<u64>,
    pub execution_time_ms: u64,
}

/// The rendered first page of a table: every cell as text.
#[derive(Clone, Debug)]
pub struct TablePreview {
    pub columns: Vec<String>,
    pub rows: Vec<Vec<String>>,
    pub total_rows: Option<i64>,
    pub page: u32,
    pub page_size: u32,
}

} // verus!
