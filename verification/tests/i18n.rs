use datazen::api::UiLanguage;
use datazen::i18n::{bundle_from_document, flatten, load_locale, I18n, LocaleBundle, LocaleCatalog, YamlValue, ALL_LANGUAGES};
use datazen::textmap::TextMap;

fn s(text: &str) -> YamlValue {
    YamlValue::String(text.to_string())
}

fn mapping(entries: Vec<(YamlValue, YamlValue)>) -> YamlValue {
    YamlValue::Mapping(entries)
}

fn english_doc() -> YamlValue {
    mapping(vec![
        (s("meta"), mapping(vec![(s("autonym"), s("English"))])),
        (
            s("status"),
            mapping(vec![(s("ready"), s("Ready")), (s("loading"), s("Loading"))]),
        ),
        (s("app"), mapping(vec![(s("title"), s("DataZen"))])),
    ])
}

fn spanish_doc() -> YamlValue {
    mapping(vec![
        (s("meta"), mapping(vec![(s("autonym"), s("Español"))])),
        (s("status"), mapping(vec![(s("ready"), s("Listo"))])),
    ])
}

#[test]
fn nested_keys_are_joined_with_dots() {
    let doc = mapping(vec![
        (s("a"), mapping(vec![(s("b"), mapping(vec![(s("c"), s("deep"))]))])),
        (s("flag"), YamlValue::Bool(true)),
        (s("count"), YamlValue::Number("3".to_string())),
        (YamlValue::Bool(false), s("skipped")),
        (s("nothing"), YamlValue::Other),
    ]);
    let mut out = TextMap::new();
    flatten("", &doc, &mut out);
    assert_eq!(out.get("a.b.c").map(|t| t.as_str()), Some("deep"));
    assert_eq!(out.get("flag").map(|t| t.as_str()), Some("true"));
    assert_eq!(out.get("count").map(|t| t.as_str()), Some("3"));
    assert_eq!(out.get("false"), None);
    assert_eq!(out.get("nothing"), None);
    assert_eq!(out.get("a"), None);
}

#[test]
fn a_later_entry_wins() {
    let doc = mapping(vec![
        (s("a.b"), s("first")),
        (s("a"), mapping(vec![(s("b"), s("second"))])),
    ]);
    let mut out = TextMap::new();
    flatten("", &doc, &mut out);
    assert_eq!(out.get("a.b").map(|t| t.as_str()), Some("second"));
}

#[test]
fn a_locale_names_itself() {
    let bundle = bundle_from_document(&spanish_doc());
    assert_eq!(bundle.autonym, "Español");
    assert_eq!(bundle.messages.get("meta.autonym"), None);
    assert_eq!(bundle.messages.get("status.ready").map(|t| t.as_str()), Some("Listo"));
    let unnamed = bundle_from_document(&mapping(vec![(s("x"), s("y"))]));
    assert_eq!(unnamed.autonym, "English");
}

#[test]
fn text_maps_insert_get_and_remove() {
    let mut map = TextMap::new();
    map.insert("k".to_string(), "1".to_string());
    map.insert("k".to_string(), "2".to_string());
    map.insert("j".to_string(), "3".to_string());
    assert_eq!(map.get("k").map(|t| t.as_str()), Some("2"));
    assert_eq!(map.remove("k"), Some("2".to_string()));
    assert_eq!(map.get("k"), None);
    assert_eq!(map.remove("k"), None);
    assert_eq!(map.copy().get("j").map(|t| t.as_str()), Some("3"));
}

fn catalog() -> LocaleCatalog {
    let english: LocaleBundle = bundle_from_document(&english_doc());
    LocaleCatalog::new(english).with_bundle(UiLanguage::Spanish, bundle_from_document(&spanish_doc()))
}

#[test]
fn message_texts_fall_back_to_english_then_to_nothing() {
    let catalog = catalog();
    let mut i18n = I18n::new(UiLanguage::Spanish);
    assert_eq!(i18n.language(), UiLanguage::Spanish);
    assert_eq!(i18n.tr(&catalog, "status.ready"), "Listo");
    assert_eq!(i18n.tr(&catalog, "status.loading"), "Loading");
    assert_eq!(i18n.tr(&catalog, "no.such.key"), "");
    i18n.set_language(UiLanguage::English);
    assert_eq!(i18n.language(), UiLanguage::English);
    assert_eq!(i18n.tr(&catalog, "status.ready"), "Ready");
    i18n.set_language(UiLanguage::Korean);
    assert_eq!(i18n.tr(&catalog, "app.title"), "DataZen");
}

#[test]
fn languages_are_labelled_by_their_own_name() {
    let catalog = catalog();
    let i18n = I18n::new(UiLanguage::English);
    assert_eq!(i18n.language_label(&catalog, UiLanguage::Spanish), "Español");
    assert_eq!(i18n.language_label(&catalog, UiLanguage::English), "English");
    assert_eq!(i18n.language_label(&catalog, UiLanguage::Hindi), "English");
}

#[test]
fn a_label_does_not_depend_on_the_current_language() {
    let catalog = catalog();
    let english = I18n::new(UiLanguage::English);
    let mut switched = I18n::new(UiLanguage::Korean);
    switched.set_language(UiLanguage::Spanish);
    for language in ALL_LANGUAGES {
        assert_eq!(english.language_label(&catalog, language), switched.language_label(&catalog, language));
    }
}

#[test]
fn switching_language_is_like_starting_in_it() {
    let catalog = catalog();
    let mut switched = I18n::new(UiLanguage::English);
    switched.set_language(UiLanguage::Spanish);
    let fresh = I18n::new(UiLanguage::Spanish);
    for key in ["status.ready", "status.loading", "app.title", "missing"] {
        assert_eq!(switched.tr(&catalog, key), fresh.tr(&catalog, key));
    }
}

fn locale_text(autonym: &str, ready: &str) -> String {
    format!("meta:\n  autonym: {autonym}\nstatus:\n  ready: {ready}\n")
}

#[test]
fn a_catalogue_is_built_from_eleven_locale_texts() {
    let mut texts: Vec<String> = Vec::new();
    for (i, language) in ALL_LANGUAGES.iter().enumerate() {
        texts.push(locale_text(language.as_code(), &format!("ready-{i}")));
    }
    let catalog = LocaleCatalog::from_locale_texts(&texts).unwrap();
    let i18n = I18n::new(UiLanguage::Japanese);
    assert_eq!(i18n.tr(&catalog, "status.ready"), "ready-9");
    assert_eq!(i18n.language_label(&catalog, UiLanguage::Ukrainian), "uk");
    assert_eq!(i18n.language_label(&catalog, UiLanguage::Mandarin), "zh-Hans");
    for (i, language) in ALL_LANGUAGES.iter().enumerate() {
        let own = load_locale(&texts[i]).unwrap();
        assert_eq!(catalog.bundle(*language).autonym, own.autonym);
        assert_eq!(
            catalog.bundle(*language).messages.get("status.ready"),
            own.messages.get("status.ready")
        );
    }
}

#[test]
fn a_catalogue_needs_every_language_and_valid_texts() {
    let mut texts: Vec<String> = Vec::new();
    for language in ALL_LANGUAGES {
        texts.push(locale_text(language.as_code(), "ok"));
    }
    let ten: Vec<String> = texts[..10].to_vec();
    assert!(LocaleCatalog::from_locale_texts(&ten).is_none());
    let mut broken = texts.clone();
    broken[4] = "a: [unclosed".to_string();
    assert!(LocaleCatalog::from_locale_texts(&broken).is_none());
    assert!(LocaleCatalog::from_locale_texts(&texts).is_some());
}

#[test]
fn a_locale_file_is_read_from_its_text() {
    let source = "meta:\n  autonym: Français\nstatus:\n  ready: Prêt\n  count: 3\n  on: true\n";
    let bundle = load_locale(source).unwrap();
    assert_eq!(bundle.autonym, "Français");
    assert_eq!(bundle.messages.get("status.ready").map(|t| t.as_str()), Some("Prêt"));
    assert_eq!(bundle.messages.get("status.count").map(|t| t.as_str()), Some("3"));
    assert_eq!(bundle.messages.get("status.on").map(|t| t.as_str()), Some("true"));
    assert_eq!(bundle.messages.get("meta.autonym"), None);
}

#[test]
fn invalid_yaml_gives_no_bundle() {
    assert!(load_locale("a: [unclosed").is_none());
    assert!(load_locale("key: value\n  bad indent: x\n").is_none());
}
