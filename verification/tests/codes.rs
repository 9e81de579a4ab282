use datazen::api::{DatabaseKind, ThemeMode, UiLanguage};
use datazen::i18n::ALL_LANGUAGES;
use datazen::service::{map_database_kind, map_database_type};
use datazen::model::DatabaseType;

#[test]
fn language_codes_are_the_stored_ones() {
    assert_eq!(UiLanguage::English.as_code(), "en");
    assert_eq!(UiLanguage::Spanish.as_code(), "es");
    assert_eq!(UiLanguage::Portuguese.as_code(), "pt-PT");
    assert_eq!(UiLanguage::French.as_code(), "fr");
    assert_eq!(UiLanguage::German.as_code(), "de");
    assert_eq!(UiLanguage::Russian.as_code(), "ru");
    assert_eq!(UiLanguage::Ukrainian.as_code(), "uk");
    assert_eq!(UiLanguage::Mandarin.as_code(), "zh-Hans");
    assert_eq!(UiLanguage::Hindi.as_code(), "hi");
    assert_eq!(UiLanguage::Japanese.as_code(), "ja");
    assert_eq!(UiLanguage::Korean.as_code(), "ko");
}

#[test]
fn every_language_reads_back_from_its_code() {
    for language in ALL_LANGUAGES {
        assert_eq!(UiLanguage::from_code(language.as_code()), language);
    }
}

#[test]
fn short_codes_are_accepted() {
    assert_eq!(UiLanguage::from_code("pt"), UiLanguage::Portuguese);
    assert_eq!(UiLanguage::from_code("zh"), UiLanguage::Mandarin);
}

#[test]
fn unknown_codes_fall_back_to_english() {
    assert_eq!(UiLanguage::from_code("xx"), UiLanguage::English);
    assert_eq!(UiLanguage::from_code(""), UiLanguage::English);
    assert_eq!(UiLanguage::from_code("EN"), UiLanguage::English);
    assert_eq!(UiLanguage::from_code("es "), UiLanguage::English);
}

#[test]
fn theme_names_round_trip() {
    assert_eq!(ThemeMode::Graphite.as_str(), "graphite");
    assert_eq!(ThemeMode::System.as_str(), "system");
    assert_eq!(ThemeMode::from_str("system"), ThemeMode::System);
    assert_eq!(ThemeMode::from_str("graphite"), ThemeMode::Graphite);
    assert_eq!(ThemeMode::from_str("dark"), ThemeMode::Graphite);
    assert_eq!(ThemeMode::from_str(ThemeMode::System.as_str()), ThemeMode::System);
}

#[test]
fn database_kinds_map_both_ways() {
    let kinds = [
        DatabaseKind::PostgreSql,
        DatabaseKind::MySql,
        DatabaseKind::MariaDb,
        DatabaseKind::Sqlite,
        DatabaseKind::Redis,
    ];
    for kind in kinds {
        assert_eq!(map_database_type(map_database_kind(kind)), kind);
    }
    assert_eq!(map_database_kind(DatabaseKind::MariaDb), DatabaseType::MariaDB);
    assert_eq!(map_database_type(DatabaseType::SQLite), DatabaseKind::Sqlite);
}
