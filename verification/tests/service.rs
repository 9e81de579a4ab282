use datazen::api::{ConnectionDraft, DatabaseKind, ThemeMode, UiLanguage};
use datazen::model::{
    ColumnInfo, ConnectionConfig, DatabaseType, QueryResult, ServerInfo, StoredSettings,
    TableDataResult, TableInfo, CellValue,
};
use datazen::service::{
    apply_settings, bootstrap_data, build_connection_config, loaded_draft, map_connection_draft,
    map_connection_summary, map_query_snapshot, map_table_preview, map_table_summary,
    complete_connect, config_to_connect, current_stamp, finish_connect, mark_connected, mark_connected_at,
    mark_connected_with_clock, render_value, sanitize_optional, session_from_server, settings_snapshot,
    stamp_from_clock, ServiceError,
};
use datazen::store::ConnectionStore;

fn draft(id: Option<&str>, name: &str) -> ConnectionDraft {
    ConnectionDraft {
        id: id.map(|s| s.to_string()),
        name: name.to_string(),
        database_kind: DatabaseKind::MySql,
        host: Some("  db.example.org ".to_string()),
        port: Some(3306),
        database: Some("   ".to_string()),
        username: Some("app".to_string()),
        password: None,
        group: Some("\tCore\n".to_string()),
        color_tag: Some(String::new()),
    }
}

#[test]
fn a_draft_without_a_name_is_refused() {
    let err = build_connection_config(draft(Some("a"), " \t ")).unwrap_err();
    assert!(matches!(err, ServiceError::NameRequired));
    assert_eq!(err.message(), "connection name is required");
    assert!(build_connection_config(draft(None, "")).is_err());
}

#[test]
fn a_draft_is_trimmed_and_keeps_its_id() {
    let config = build_connection_config(draft(Some("conn-1"), "  Primary  ")).unwrap();
    assert_eq!(config.id, "conn-1");
    assert_eq!(config.name, "Primary");
    assert_eq!(config.database_type, DatabaseType::MySQL);
    assert_eq!(config.host.as_deref(), Some("db.example.org"));
    assert_eq!(config.port, Some(3306));
    assert_eq!(config.database, None);
    assert_eq!(config.username.as_deref(), Some("app"));
    assert_eq!(config.password, None);
    assert_eq!(config.group.as_deref(), Some("Core"));
    assert_eq!(config.color_tag, None);
    assert_eq!(config.connection_timeout, 30);
    assert!(config.ssh_tunnel.is_none());
    assert_eq!(config.last_connected_at, None);
}

#[test]
fn a_new_draft_gets_a_random_uuid() {
    let first = build_connection_config(draft(None, "x")).unwrap().id;
    let second = build_connection_config(draft(None, "x")).unwrap().id;
    assert_ne!(first, second);
    for id in [first, second] {
        let chars: Vec<char> = id.chars().collect();
        assert_eq!(chars.len(), 36);
        for (i, c) in chars.iter().enumerate() {
            if [8, 13, 18, 23].contains(&i) {
                assert_eq!(*c, '-');
            } else {
                assert!(c.is_ascii_hexdigit() && !c.is_ascii_uppercase());
            }
        }
        assert_eq!(chars[14], '4');
        assert!(['8', '9', 'a', 'b'].contains(&chars[19]));
    }
}

#[test]
fn sanitizing_optional_texts() {
    assert_eq!(sanitize_optional(Some(" a ".to_string())), Some("a".to_string()));
    assert_eq!(sanitize_optional(Some("  ".to_string())), None);
    assert_eq!(sanitize_optional(None), None);
}

#[test]
fn reloading_and_saving_a_connection_changes_nothing() {
    let config = build_connection_config(draft(Some("c1"), " Main ")).unwrap();
    let again = build_connection_config(map_connection_draft(config.clone())).unwrap();
    assert_eq!(format!("{:?}", again), format!("{:?}", config));
}

#[test]
fn the_draft_of_a_config_shows_its_fields() {
    let config = build_connection_config(draft(Some("c1"), "Main")).unwrap();
    let d = map_connection_draft(config);
    assert_eq!(d.id.as_deref(), Some("c1"));
    assert_eq!(d.name, "Main");
    assert_eq!(d.database_kind, DatabaseKind::MySql);
    assert_eq!(d.host.as_deref(), Some("db.example.org"));
    assert_eq!(d.port, Some(3306));
}

#[test]
fn the_summary_of_a_config_leaves_out_credentials() {
    let mut config = build_connection_config(draft(Some("c1"), "Main")).unwrap();
    mark_connected_at(&mut config, "2024-01-01T00:00:00+00:00".to_string());
    let summary = map_connection_summary(config);
    assert_eq!(summary.id, "c1");
    assert_eq!(summary.name, "Main");
    assert_eq!(summary.database_kind, DatabaseKind::MySql);
    assert_eq!(summary.host.as_deref(), Some("db.example.org"));
    assert_eq!(summary.database, None);
    assert_eq!(summary.group.as_deref(), Some("Core"));
    assert_eq!(summary.last_connected_at.as_deref(), Some("2024-01-01T00:00:00+00:00"));
}

#[test]
fn marking_a_connection_stamps_the_current_utc_time() {
    let mut config = build_connection_config(draft(Some("c1"), "Main")).unwrap();
    assert!(mark_connected(&mut config));
    let stamp = config.last_connected_at.clone().unwrap();
    assert!(stamp.ends_with("+00:00"));
    assert!(stamp.len() >= 25);
    assert_eq!(config.name, "Main");
}

#[test]
fn a_missing_connection_is_reported_by_id() {
    let err = loaded_draft("abc", None).unwrap_err();
    assert_eq!(err.message(), "connection abc was not found");
    let config = build_connection_config(draft(Some("abc"), "A")).unwrap();
    assert_eq!(loaded_draft("abc", Some(config)).unwrap().name, "A");
}

#[test]
fn values_render_as_the_result_pane_shows_them() {
    assert_eq!(render_value(&CellValue::Null), "NULL");
    assert_eq!(render_value(&CellValue::Bool(true)), "true");
    assert_eq!(render_value(&CellValue::Bool(false)), "false");
    assert_eq!(render_value(&CellValue::Integer(-17)), "-17");
    assert_eq!(render_value(&CellValue::Float(1.5f64.to_string())), "1.5");
    assert_eq!(render_value(&CellValue::String("abc".to_string())), "abc");
    assert_eq!(render_value(&CellValue::Bytes(vec![1, 2, 3])), "<3 bytes>");
    assert_eq!(render_value(&CellValue::Bytes(Vec::new())), "<0 bytes>");
    assert_eq!(render_value(&CellValue::Timestamp("2024-05-01".to_string())), "2024-05-01");
    assert_eq!(render_value(&CellValue::Json("{\"a\":1}".to_string())), "{\"a\":1}");
}

fn columns() -> Vec<ColumnInfo> {
    vec![ColumnInfo { name: "id".to_string() }, ColumnInfo { name: "name".to_string() }]
}

fn rows() -> Vec<Vec<Option<CellValue>>> {
    vec![
        vec![Some(CellValue::Integer(1)), Some(CellValue::String("ann".to_string()))],
        vec![Some(CellValue::Integer(2)), None],
        vec![Some(CellValue::Null), Some(CellValue::Bool(true))],
    ]
}

#[test]
fn query_results_become_texts() {
    let snapshot = map_query_snapshot(QueryResult {
        columns: columns(),
        rows: rows(),
        rows_affected: Some(3),
        execution_time_ms: 12,
    });
    assert_eq!(snapshot.columns, vec!["id", "name"]);
    assert_eq!(snapshot.rows, vec![vec!["1", "ann"], vec!["2", "NULL"], vec!["NULL", "true"]]);
    assert_eq!(snapshot.rows_affected, Some(3));
    assert_eq!(snapshot.execution_time_ms, 12);
}

#[test]
fn table_pages_become_texts() {
    let preview = map_table_preview(TableDataResult {
        columns: columns(),
        rows: rows(),
        total_rows: Some(250),
        page: 0,
        page_size: 100,
    });
    assert_eq!(preview.columns, vec!["id", "name"]);
    assert_eq!(preview.rows[1], vec!["2", "NULL"]);
    assert_eq!(preview.total_rows, Some(250));
    assert_eq!(preview.page, 0);
    assert_eq!(preview.page_size, 100);
}

#[test]
fn table_kinds_are_lowercased() {
    let summary = map_table_summary(TableInfo {
        name: "Users".to_string(),
        table_type: "MaterializedView".to_string(),
        row_count: Some(5),
    });
    assert_eq!(summary.name, "Users");
    assert_eq!(summary.table_type, "materializedview");
    assert_eq!(summary.row_count, Some(5));
}

#[test]
fn saved_settings_read_back_as_written() {
    let mut settings = StoredSettings { language: "en".to_string(), theme: "graphite".to_string() };
    let snapshot = apply_settings(&mut settings, UiLanguage::Mandarin, ThemeMode::System);
    assert_eq!(settings.language, "zh-Hans");
    assert_eq!(settings.theme, "system");
    assert_eq!(snapshot.language, UiLanguage::Mandarin);
    assert_eq!(snapshot.theme, ThemeMode::System);
    assert_eq!(settings_snapshot(&settings), snapshot);
}

#[test]
fn bootstrap_reads_settings_and_keeps_the_store_order() {
    let settings = StoredSettings { language: "pt".to_string(), theme: "unknown".to_string() };
    let configs: Vec<ConnectionConfig> = vec![
        build_connection_config(draft(Some("b"), "Zeta")).unwrap(),
        build_connection_config(draft(Some("a"), "Alpha")).unwrap(),
    ];
    let data = bootstrap_data(&settings, configs);
    assert_eq!(data.settings.language, UiLanguage::Portuguese);
    assert_eq!(data.settings.theme, ThemeMode::Graphite);
    let ids: Vec<&str> = data.connections.iter().map(|c| c.id.as_str()).collect();
    assert_eq!(ids, vec!["b", "a"]);
}

#[test]
fn a_session_names_the_server() {
    let session = session_from_server(
        "s-1".to_string(),
        ServerInfo { server_type: "PostgreSQL".to_string(), server_version: "16.2".to_string() },
    );
    assert_eq!(session.session_id, "s-1");
    assert_eq!(session.server_type, "PostgreSQL");
    assert_eq!(session.server_version, "16.2");
}

#[test]
fn table_lists_keep_the_driver_order() {
    let summaries = datazen::service::map_table_summaries(vec![
        TableInfo { name: "b".to_string(), table_type: "View".to_string(), row_count: None },
        TableInfo { name: "a".to_string(), table_type: "Table".to_string(), row_count: Some(2) },
    ]);
    assert_eq!(summaries.len(), 2);
    assert_eq!(summaries[0].name, "b");
    assert_eq!(summaries[0].table_type, "view");
    assert_eq!(summaries[1].table_type, "table");
    assert_eq!(summaries[1].row_count, Some(2));
}

#[test]
fn new_configurations_prefer_tls() {
    let config = build_connection_config(draft(Some("c1"), "Main")).unwrap();
    assert_eq!(config.ssl_mode, datazen::model::SslMode::Prefer);
    assert_eq!(datazen::model::SslMode::default(), datazen::model::SslMode::Prefer);
}

#[test]
fn the_current_stamp_is_utc() {
    let stamp = current_stamp().unwrap();
    assert!(stamp.ends_with("+00:00"));
    assert!(stamp.starts_with("20"));
}

#[test]
fn a_missing_random_source_is_reported() {
    assert_eq!(
        ServiceError::IdUnavailable.message(),
        "could not retrieve random bytes for a connection id"
    );
}

#[test]
fn a_clock_reading_gives_its_rfc3339_stamp() {
    assert_eq!(stamp_from_clock(0, 0).as_deref(), Some("1970-01-01T00:00:00+00:00"));
    assert_eq!(stamp_from_clock(1_700_000_000, 0).as_deref(), Some("2023-11-14T22:13:20+00:00"));
    assert_eq!(stamp_from_clock(0, 500_000_000).as_deref(), Some("1970-01-01T00:00:00.500+00:00"));
}

#[test]
fn a_clock_reading_beyond_signed_seconds_gives_no_stamp() {
    assert_eq!(stamp_from_clock(u64::MAX, 0), None);
    assert_eq!(stamp_from_clock(9_223_372_036_854_775_808, 0), None);
}

#[test]
fn marking_with_a_clock_reading_stamps_that_time() {
    let mut config = build_connection_config(draft(Some("c1"), "Main")).unwrap();
    assert!(mark_connected_with_clock(&mut config, 1_700_000_000, 0));
    assert_eq!(config.last_connected_at.as_deref(), Some("2023-11-14T22:13:20+00:00"));
    assert_eq!(config.name, "Main");
    assert_eq!(config.id, "c1");
}

#[test]
fn marking_with_an_unusable_clock_reading_changes_nothing() {
    let mut config = build_connection_config(draft(Some("c1"), "Main")).unwrap();
    mark_connected_at(&mut config, "2024-01-01T00:00:00+00:00".to_string());
    assert!(!mark_connected_with_clock(&mut config, u64::MAX, 0));
    assert_eq!(config.last_connected_at.as_deref(), Some("2024-01-01T00:00:00+00:00"));
}

#[test]
fn connecting_to_an_unknown_id_is_refused() {
    match config_to_connect("gone", None) {
        Err(ServiceError::ConnectionNotFound(id)) => assert_eq!(id, "gone"),
        other => panic!("unexpected result: {:?}", other.map(|c| c.id)),
    }
    let config = build_connection_config(draft(Some("c1"), "Main")).unwrap();
    assert_eq!(config_to_connect("c1", Some(config)).unwrap().name, "Main");
}

fn server() -> ServerInfo {
    ServerInfo { server_type: "MySQL".to_string(), server_version: "8.0.36".to_string() }
}

#[test]
fn completing_a_connection_stamps_it_and_describes_the_session() {
    let config = build_connection_config(draft(Some("c1"), "Main")).unwrap();
    let (updated, session) = complete_connect(config, "s-1".to_string(), server());
    assert_eq!(session.session_id, "s-1");
    assert_eq!(session.server_type, "MySQL");
    assert_eq!(session.server_version, "8.0.36");
    assert_eq!(updated.name, "Main");
    let stamp = updated.last_connected_at.unwrap();
    assert!(stamp.ends_with("+00:00"));
}

#[test]
fn finishing_a_connection_saves_the_stamped_configuration() {
    let mut store = ConnectionStore::new(StoredSettings { language: "en".to_string(), theme: "graphite".to_string() });
    store.save_connection(build_connection_config(draft(Some("c1"), "Main")).unwrap());
    store.save_connection(build_connection_config(draft(Some("c2"), "Other")).unwrap());
    let config = store.get_connection("c1").unwrap();
    assert_eq!(config.last_connected_at, None);
    let session = finish_connect(&mut store, config, "s-9".to_string(), server());
    assert_eq!(session.session_id, "s-9");
    assert_eq!(store.connections().len(), 2);
    let saved = store.get_connection("c1").unwrap();
    assert!(saved.last_connected_at.unwrap().ends_with("+00:00"));
    assert_eq!(store.get_connection("c2").unwrap().last_connected_at, None);
    assert_eq!(store.connections()[0].id, "c1");
}
