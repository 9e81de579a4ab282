use datazen::api::{ConnectionDraft, DatabaseKind};
use datazen::model::{ConnectionConfig, StoredSettings};
use datazen::service::build_connection_config;
use datazen::store::{copy_config, ConnectionStore};

fn config(id: &str, name: &str) -> ConnectionConfig {
    build_connection_config(ConnectionDraft {
        id: Some(id.to_string()),
        name: name.to_string(),
        database_kind: DatabaseKind::PostgreSql,
        host: Some("localhost".to_string()),
        port: Some(5432),
        database: None,
        username: None,
        password: None,
        group: None,
        color_tag: None,
    })
    .unwrap()
}

fn store() -> ConnectionStore {
    ConnectionStore::new(StoredSettings { language: "en".to_string(), theme: "graphite".to_string() })
}

fn names(store: &ConnectionStore) -> Vec<String> {
    store.connections().into_iter().map(|c| c.name).collect()
}

#[test]
fn a_new_store_is_empty_and_keeps_its_settings() {
    let store = store();
    assert!(store.connections().is_empty());
    assert_eq!(store.settings().language, "en");
    assert_eq!(store.settings().theme, "graphite");
}

#[test]
fn a_read_gives_back_what_was_saved() {
    let mut store = store();
    store.save_connection(config("a", "Alpha"));
    store.save_connection(config("b", "Beta"));
    assert_eq!(store.get_connection("a").unwrap().name, "Alpha");
    assert_eq!(store.get_connection("b").unwrap().name, "Beta");
    assert!(store.get_connection("c").is_none());
}

#[test]
fn a_second_save_under_an_id_overwrites_in_place() {
    let mut store = store();
    store.save_connection(config("a", "Alpha"));
    store.save_connection(config("b", "Beta"));
    store.save_connection(config("a", "Alpha 2"));
    assert_eq!(names(&store), vec!["Alpha 2".to_string(), "Beta".to_string()]);
    assert_eq!(store.get_connection("a").unwrap().name, "Alpha 2");
}

#[test]
fn a_deleted_id_reads_as_nothing_and_others_stay() {
    let mut store = store();
    store.save_connection(config("a", "Alpha"));
    store.save_connection(config("b", "Beta"));
    store.save_connection(config("c", "Gamma"));
    store.delete_connection("b");
    assert!(store.get_connection("b").is_none());
    assert_eq!(names(&store), vec!["Alpha".to_string(), "Gamma".to_string()]);
    store.delete_connection("zzz");
    assert_eq!(names(&store), vec!["Alpha".to_string(), "Gamma".to_string()]);
}

#[test]
fn settings_can_be_changed_in_place() {
    let mut store = store();
    store.settings_mut().language = "de".to_string();
    assert_eq!(store.settings().language, "de");
    assert_eq!(store.settings().theme, "graphite");
}

#[test]
fn a_copied_config_is_equal_field_by_field() {
    let original = config("a", "Alpha");
    let copy = copy_config(&original);
    assert_eq!(copy.id, original.id);
    assert_eq!(copy.name, original.name);
    assert_eq!(copy.host, original.host);
    assert_eq!(copy.port, original.port);
}
