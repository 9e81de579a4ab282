use datazen::api::DatabaseKind;
use datazen::form::ConnectionForm;
use datazen::service::{build_connection_config, map_connection_draft};

#[test]
fn a_new_form_is_empty() {
    let form = ConnectionForm::new();
    assert_eq!(form.id, None);
    assert_eq!(form.database_kind, DatabaseKind::PostgreSql);
    assert_eq!(form.name, "");
    let draft = form.to_draft();
    assert_eq!(draft.host, None);
    assert_eq!(draft.port, None);
}

#[test]
fn the_form_trims_everything_but_the_name() {
    let mut form = ConnectionForm::new();
    form.name = " Main ".to_string();
    form.host = "  localhost ".to_string();
    form.port = " 5432 ".to_string();
    form.username = "   ".to_string();
    let draft = form.to_draft();
    assert_eq!(draft.name, " Main ");
    assert_eq!(draft.host.as_deref(), Some("localhost"));
    assert_eq!(draft.port, Some(5432));
    assert_eq!(draft.username, None);
    form.port = "99999".to_string();
    assert_eq!(form.to_draft().port, None);
    form.port = "abc".to_string();
    assert_eq!(form.to_draft().port, None);
}

#[test]
fn editing_without_changes_saves_the_same_connection() {
    let mut form = ConnectionForm::new();
    form.name = "  Reports ".to_string();
    form.host = " db ".to_string();
    form.port = "+15432".to_string();
    form.group = "g".to_string();
    let saved = build_connection_config(form.to_draft()).unwrap();
    let mut edit = ConnectionForm::new();
    edit.populate(map_connection_draft(saved.clone()));
    assert_eq!(edit.port, "15432");
    let again = build_connection_config(edit.to_draft()).unwrap();
    assert_eq!(format!("{:?}", again), format!("{:?}", saved));
    edit.clear();
    assert_eq!(edit.id, None);
    assert_eq!(edit.host, "");
}
