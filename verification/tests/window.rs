use datazen::api::{
    AppSettingsSnapshot, BootstrapData, ConnectionDraft, ConnectionSession, ConnectionSummary,
    DatabaseKind, QuerySnapshot, TablePreview, TableSummary, ThemeMode, UiLanguage,
};
use datazen::form::ConnectionForm;
use datazen::i18n::{bundle_from_document, LocaleCatalog, YamlValue};
use datazen::model::ServerInfo;
use datazen::window::{Request, WindowState};

fn s(text: &str) -> YamlValue {
    YamlValue::String(text.to_string())
}

fn group(name: &str, entries: Vec<(&str, &str)>) -> (YamlValue, YamlValue) {
    (s(name), YamlValue::Mapping(entries.into_iter().map(|(k, v)| (s(k), s(v))).collect()))
}

fn catalog() -> LocaleCatalog {
    let english = YamlValue::Mapping(vec![
        group("meta", vec![("autonym", "English")]),
        group("app", vec![("title", "DataZen")]),
        group(
            "status",
            vec![
                ("ready", "Ready"),
                ("loading", "Loading"),
                ("saving", "Saving"),
                ("testing", "Testing"),
                ("connecting", "Connecting"),
                ("connected", "Connected"),
                ("disconnected", "Disconnected"),
            ],
        ),
        group("content", vec![("select_connection", "Select a connection"), ("not_connected", "Not connected")]),
        group("form", vec![("new", "New connection"), ("edit", "Edit connection")]),
    ]);
    let german = YamlValue::Mapping(vec![
        group("meta", vec![("autonym", "Deutsch")]),
        group("status", vec![("ready", "Bereit")]),
    ]);
    LocaleCatalog::new(bundle_from_document(&english)).with_bundle(UiLanguage::German, bundle_from_document(&german))
}

fn summary(id: &str, name: &str) -> ConnectionSummary {
    ConnectionSummary {
        id: id.to_string(),
        name: name.to_string(),
        database_kind: DatabaseKind::PostgreSql,
        host: Some(format!("{id}.example.org")),
        database: None,
        group: None,
        color_tag: None,
        last_connected_at: None,
    }
}

fn names(w: &WindowState) -> Vec<String> {
    w.connections.iter().map(|c| c.name.clone()).collect()
}

fn session() -> ConnectionSession {
    ConnectionSession {
        session_id: "s1".to_string(),
        server_type: "PostgreSQL".to_string(),
        server_version: "16".to_string(),
    }
}

fn booted() -> WindowState {
    let mut w = WindowState::new(catalog());
    assert!(matches!(w.begin_bootstrap(), Request::Bootstrap));
    w.on_bootstrapped(Ok(BootstrapData {
        settings: AppSettingsSnapshot { language: UiLanguage::English, theme: ThemeMode::System },
        connections: vec![summary("b", "Beta"), summary("a", "Alpha")],
    }));
    w
}

#[test]
fn the_window_opens_loading() {
    let w = WindowState::new(catalog());
    assert_eq!(w.status_label(), "Loading");
    assert_eq!(w.status, "Ready");
    assert_eq!(w.i18n.language(), UiLanguage::English);
    assert_eq!(w.theme, ThemeMode::Graphite);
}

#[test]
fn bootstrap_selects_the_first_connection() {
    let w = booted();
    assert_eq!(w.selected_connection_id.as_deref(), Some("b"));
    assert_eq!(names(&w), vec!["Beta", "Alpha"]);
    assert_eq!(w.theme, ThemeMode::System);
    assert_eq!(w.busy_label, None);
    assert_eq!(w.status_label(), "Ready");
    assert_eq!(w.header_title(), "Beta");
    assert_eq!(w.header_subtitle(), "b.example.org");
}

#[test]
fn a_failed_bootstrap_shows_the_error() {
    let mut w = WindowState::new(catalog());
    w.begin_bootstrap();
    w.on_bootstrapped(Err("backend request channel is closed".to_string()));
    assert_eq!(w.error.as_deref(), Some("backend request channel is closed"));
    assert_eq!(w.busy_label, None);
    assert_eq!(w.status, "Ready");
    assert_eq!(w.header_title(), "DataZen");
    assert_eq!(w.header_subtitle(), "Select a connection");
}

#[test]
fn saving_puts_the_connection_in_name_order_and_selects_it() {
    let mut w = booted();
    w.on_new_connection();
    assert!(w.show_form);
    assert_eq!(w.form_title(), "New connection");
    w.form.name = "Gamma".to_string();
    match w.on_save_connection() {
        Request::SaveConnection(draft) => assert_eq!(draft.name, "Gamma"),
        _ => panic!("expected a save"),
    }
    assert_eq!(w.status_label(), "Saving");
    w.on_saved(Ok(summary("c", "Gamma")));
    assert_eq!(names(&w), vec!["Alpha", "Beta", "Gamma"]);
    assert_eq!(w.selected_connection_id.as_deref(), Some("c"));
    assert!(!w.show_form);
    assert_eq!(w.status_label(), "Ready");
    w.on_saved(Ok(summary("b", "Aardvark")));
    assert_eq!(names(&w), vec!["Aardvark", "Alpha", "Gamma"]);
    assert_eq!(w.selected_connection_id.as_deref(), Some("b"));
}

#[test]
fn equal_names_keep_their_order() {
    let mut w = booted();
    w.on_saved(Ok(summary("x", "Beta")));
    let ids: Vec<&str> = w.connections.iter().map(|c| c.id.as_str()).collect();
    assert_eq!(ids, vec!["a", "b", "x"]);
}

#[test]
fn deleting_drops_the_selected_connection() {
    let mut w = booted();
    match w.on_delete_selected() {
        Some(Request::DeleteConnection(id)) => assert_eq!(id, "b"),
        _ => panic!("expected a deletion"),
    }
    w.on_deleted(Ok(()));
    assert_eq!(names(&w), vec!["Alpha"]);
    assert_eq!(w.selected_connection_id.as_deref(), Some("a"));
    assert!(w.session.is_none());
    w.on_delete_selected();
    w.on_deleted(Ok(()));
    assert!(w.connections.is_empty());
    assert_eq!(w.selected_connection_id, None);
    assert!(w.on_delete_selected().is_none());
    assert!(w.on_edit_selected().is_none());
    assert!(w.on_connect_selected().is_none());
}

#[test]
fn connecting_lists_databases_then_tables() {
    let mut w = booted();
    match w.on_connect_selected() {
        Some(Request::Connect(id)) => assert_eq!(id, "b"),
        _ => panic!("expected a connect"),
    }
    assert_eq!(w.status_label(), "Connecting");
    match w.on_connected(Ok(session())) {
        Some(Request::ListDatabases(id)) => assert_eq!(id, "s1"),
        _ => panic!("expected the databases to be listed"),
    }
    assert_eq!(w.status, "Connected: PostgreSQL 16");
    assert_eq!(w.status_label(), "Loading");
    assert_eq!(w.databases_notice(), "Loading");
    match w.on_databases(Ok(vec!["app".to_string(), "logs".to_string()])) {
        Some(Request::ListTables(id, db)) => {
            assert_eq!(id, "s1");
            assert_eq!(db, "app");
        }
        _ => panic!("expected the tables to be listed"),
    }
    w.on_tables(Ok(vec![TableSummary { name: "users".to_string(), table_type: "table".to_string(), row_count: None }]));
    assert_eq!(w.selected_table.as_deref(), Some("users"));
    match w.on_preview_table() {
        Some(Request::PreviewTable(id, db, table)) => {
            assert_eq!((id.as_str(), db.as_str(), table.as_str()), ("s1", "app", "users"));
        }
        _ => panic!("expected a preview"),
    }
    w.on_previewed(Ok(TablePreview { columns: vec![], rows: vec![], total_rows: None, page: 0, page_size: 100 }));
    assert!(w.table_preview.is_some());
    match w.select_database("logs".to_string()) {
        Some(Request::ListTables(_, db)) => assert_eq!(db, "logs"),
        _ => panic!("expected the tables to be listed"),
    }
    assert!(w.tables.is_empty());
    assert!(w.table_preview.is_none());
}

#[test]
fn queries_need_a_session_and_text() {
    let mut w = booted();
    assert!(w.on_run_query("select 1".to_string()).is_none());
    w.on_connected(Ok(session()));
    assert!(w.on_run_query("  \n ".to_string()).is_none());
    match w.on_run_query("select 1".to_string()) {
        Some(Request::ExecuteQuery(id, sql)) => {
            assert_eq!(id, "s1");
            assert_eq!(sql, "select 1");
        }
        _ => panic!("expected a query"),
    }
    w.on_query_ran(Ok(QuerySnapshot { columns: vec![], rows: vec![], rows_affected: Some(1), execution_time_ms: 2 }));
    assert_eq!(w.query_result.as_ref().map(|q| q.rows_affected), Some(Some(1)));
}

#[test]
fn disconnecting_clears_the_session() {
    let mut w = booted();
    assert!(w.on_disconnect().is_none());
    w.on_connected(Ok(session()));
    w.on_databases(Ok(vec!["app".to_string()]));
    match w.on_disconnect() {
        Some(Request::Disconnect(id)) => assert_eq!(id, "s1"),
        _ => panic!("expected a disconnect"),
    }
    w.on_disconnected(Ok(()));
    assert!(w.session.is_none());
    assert!(w.databases.is_empty());
    assert_eq!(w.status, "Disconnected");
    assert_eq!(w.databases_notice(), "Not connected");
}

#[test]
fn selecting_a_connection_drops_the_session() {
    let mut w = booted();
    w.on_connected(Ok(session()));
    w.on_databases(Ok(vec!["app".to_string()]));
    w.set_error("old".to_string());
    w.select_connection("a".to_string());
    assert!(w.session.is_none());
    assert!(w.databases.is_empty());
    assert_eq!(w.selected_database, None);
    assert_eq!(w.error, None);
    assert!(w.is_selected_connection("a"));
    assert!(!w.is_selected_connection("b"));
    w.select_table("t".to_string());
    assert_eq!(w.selected_table.as_deref(), Some("t"));
}

#[test]
fn switching_language_translates_the_status() {
    let mut w = booted();
    match w.cycle_language(UiLanguage::German) {
        Request::SaveSettings(language, theme) => {
            assert_eq!(language, UiLanguage::German);
            assert_eq!(theme, ThemeMode::System);
        }
        _ => panic!("expected the settings to be saved"),
    }
    w.on_settings_saved(Ok(AppSettingsSnapshot { language: UiLanguage::German, theme: ThemeMode::Graphite }));
    assert_eq!(w.i18n.language(), UiLanguage::German);
    assert_eq!(w.theme, ThemeMode::Graphite);
    assert_eq!(w.status, "Bereit");
    assert_eq!(w.label("status.loading"), "Loading");
}

#[test]
fn editing_loads_the_connection_into_the_form() {
    let mut w = booted();
    match w.on_edit_selected() {
        Some(Request::LoadConnection(id)) => assert_eq!(id, "b"),
        _ => panic!("expected a load"),
    }
    w.on_loaded(Ok(ConnectionDraft {
        id: Some("b".to_string()),
        name: "Beta".to_string(),
        database_kind: DatabaseKind::Redis,
        host: Some("cache".to_string()),
        port: Some(6379),
        database: None,
        username: None,
        password: None,
        group: None,
        color_tag: None,
    }));
    assert!(w.show_form);
    assert_eq!(w.form_title(), "Edit connection");
    assert_eq!(w.form.port, "6379");
    assert_eq!(w.form.host, "cache");
    assert_eq!(w.form.database, "");
    w.on_cancel_form();
    assert!(!w.show_form);
}

#[test]
fn a_connection_test_reports_the_server() {
    let mut w = booted();
    w.form = ConnectionForm::new();
    match w.on_test_connection() {
        Request::TestConnection(draft) => assert_eq!(draft.database_kind, DatabaseKind::PostgreSql),
        _ => panic!("expected a test"),
    }
    assert_eq!(w.status_label(), "Testing");
    w.on_tested(Ok(ServerInfo { server_type: "MySQL".to_string(), server_version: "8.0".to_string() }));
    assert_eq!(w.status, "Connected: MySQL 8.0");
    w.on_tested(Err("refused".to_string()));
    assert_eq!(w.error.as_deref(), Some("refused"));
}

#[test]
fn the_language_picker_lists_every_language() {
    let mut w = booted();
    let choices = w.language_choices();
    assert_eq!(choices.len(), 11);
    assert_eq!(choices[0], (UiLanguage::English, "English".to_string(), true));
    assert_eq!(choices[4], (UiLanguage::German, "Deutsch".to_string(), false));
    w.on_settings_saved(Ok(AppSettingsSnapshot { language: UiLanguage::German, theme: ThemeMode::System }));
    let choices = w.language_choices();
    assert!(choices[4].2);
    assert!(!choices[0].2);
}
