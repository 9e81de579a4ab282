use vstd::prelude::*;

use crate::api::UiLanguage;
use crate::textmap::TextMap;

verus! {

/// A parsed YAML document, with what flattening reads of it: mappings,
/// strings, booleans and numbers (as the text they display as).
pub enum YamlValue {
    Mapping(Vec<(YamlValue, YamlValue)>),
    String(String),
    Bool(bool),
    Number(String),
    Other,
}

/// The dotted key of a nested entry.
pub open spec fn joined_key(prefix: Seq<char>, key: Seq<char>) -> Seq<char> {
    if prefix.len() == 0 {
        key
    } else {
        prefix + seq!['.'] + key
    }
}

/// The number of entries of a mapping, and 0 for any other value.
pub open spec fn entry_count(value: YamlValue) -> nat {
    match value {
        YamlValue::Mapping(entries) => entries@.len(),
        _ => 0,
    }
}

/// The messages a YAML value adds under `prefix` to those in `acc`: every
/// string, boolean and number leaf under its dotted path; entries with a
/// key that is not a string are skipped, and a later entry with the same
/// dotted key wins.
pub open spec fn flatten_spec(
    prefix: Seq<char>,
    value: YamlValue,
    acc: Map<Seq<char>, Seq<char>>,
) -> Map<Seq<char>, Seq<char>>
    decreases value, entry_count(value) + 1,
{
    match value {
        YamlValue::Mapping(entries) => flatten_entries(prefix, value, entries@.len(), acc),
        YamlValue::String(text) => acc.insert(prefix, text@),
        YamlValue::Bool(flag) => acc.insert(
            prefix,
            if flag {
                "true"@
            } else {
                "false"@
            },
        ),
        YamlValue::Number(text) => acc.insert(prefix, text@),
        YamlValue::Other => acc,
    }
}

/// The messages the first `n` entries of a mapping add under `prefix`.
pub open spec fn flatten_entries(
    prefix: Seq<char>,
    mapping: YamlValue,
    n: nat,
    acc: Map<Seq<char>, Seq<char>>,
) -> Map<Seq<char>, Seq<char>>
    decreases mapping, n,
{
    match mapping {
        YamlValue::Mapping(entries) => {
            if n == 0 || n > entries@.len() {
                acc
            } else {
                let before = flatten_entries(prefix, mapping, (n - 1) as nat, acc);
                let entry = entries@[n - 1];
                match entry.0 {
                    YamlValue::String(key) => {
                        proof {
                            assert(decreases_to!(mapping => entries));
                            assert(decreases_to!(entries => entries@));
                            assert(decreases_to!(entries@ => entries@[n - 1]));
                            assert(decreases_to!(entries@[n - 1] => entry.1));
                        }
                        flatten_spec(joined_key(prefix, key@), entry.1, before)
                    },
                    _ => before,
                }
            }
        },
        _ => acc,
    }
}

fn joined(prefix: &str, key: &String) -> (res: String)
    ensures
        res@ == joined_key(prefix@, key@),
{
    if prefix.is_empty() {
        key.clone()
    } else {
        let mut text = prefix.to_owned();
        text.append(".");
        text.append(key.as_str());
        proof {
            reveal_strlit(".");
        }
        text
    }
}

/// Adds the leaves of `value` under `prefix` to `out`, as dotted keys.
pub fn flatten(prefix: &str, value: &YamlValue, out: &mut TextMap)
    ensures
        final(out)@ == flatten_spec(prefix@, *value, old(out)@),
    decreases value,
{
    match value {
        YamlValue::Mapping(entries) => {
            let n = entries.len();
            for i in 0..n
                invariant
                    n == entries@.len(),
                    *value == YamlValue::Mapping(*entries),
                    out@ == flatten_entries(prefix@, *value, i as nat, old(out)@),
            {
                if let YamlValue::String(key) = &entries[i].0 {
                    let next = joined(prefix, key);
                    proof {
                        assert(decreases_to!(*value => *entries));
                        assert(decreases_to!(*entries => entries@));
                        assert(decreases_to!(entries@ => entries@[i as int]));
                        assert(decreases_to!(entries@[i as int] => entries@[i as int].1));
                    }
                    flatten(next.as_str(), &entries[i].1, out);
                }
            }
        },
        YamlValue::String(text) => {
            out.insert(prefix.to_owned(), text.clone());
        },
        YamlValue::Bool(flag) => {
            let text = if *flag {
                "true".to_owned()
            } else {
                "false".to_owned()
            };
            out.insert(prefix.to_owned(), text);
        },
        YamlValue::Number(text) => {
            out.insert(prefix.to_owned(), text.clone());
        },
        YamlValue::Other => {},
    }
}

/// The texts of one language: its own name and its messages.
pub struct LocaleBundle {
    pub autonym: String,
    pub messages: TextMap,
}

/// The contents of a [`LocaleBundle`].
pub struct LocaleBundleView {
    pub autonym: Seq<char>,
    pub messages: Map<Seq<char>, Seq<char>>,
}

impl View for LocaleBundle {
    type V = LocaleBundleView;

    open spec fn view(&self) -> LocaleBundleView {
        LocaleBundleView { autonym: self.autonym@, messages: self.messages@ }
    }
}

/// The key under which a locale file names its language.
pub open spec fn autonym_key() -> Seq<char> {
    "meta.autonym"@
}

/// The bundle a locale document describes: its flattened messages but the
/// autonym entry, and the autonym, which is `English` when the document
/// has none.
pub open spec fn bundle_of_document(document: YamlValue) -> LocaleBundleView {
    let flat = flatten_spec(""@, document, Map::empty());
    LocaleBundleView {
        autonym: if flat.contains_key(autonym_key()) {
            flat[autonym_key()]
        } else {
            "English"@
        },
        messages: flat.remove(autonym_key()),
    }
}

/// Builds the bundle of a parsed locale document.
pub fn bundle_from_document(document: &YamlValue) -> (bundle: LocaleBundle)
    ensures
        bundle@ == bundle_of_document(*document),
{
    let mut flat = TextMap::new();
    flatten("", document, &mut flat);
    let autonym = match flat.remove("meta.autonym") {
        Some(name) => name,
        None => "English".to_owned(),
    };
    LocaleBundle { autonym: autonym, messages: flat }
}

#[verifier::external_type_specification]
#[verifier::external_body]
pub struct ExSerdeYamlValue(serde_yaml::Value);

/// The library's form of a serde_yaml value: each variant moved over as
/// it is, numbers as the text they display as; null, sequences and
/// tagged values, which flattening skips, become `Other`.
#[verifier::external_body]
fn document_of(value: &serde_yaml::Value) -> YamlValue {
    match value {
        serde_yaml::Value::Mapping(mapping) => YamlValue::Mapping(
            mapping.iter().map(|(key, nested)| (document_of(key), document_of(nested))).collect(),
        ),
        serde_yaml::Value::String(text) => YamlValue::String(text.clone()),
        serde_yaml::Value::Bool(flag) => YamlValue::Bool(*flag),
        serde_yaml::Value::Number(number) => YamlValue::Number(number.to_string()),
        serde_yaml::Value::Null => YamlValue::Other,
        serde_yaml::Value::Sequence(_) => YamlValue::Other,
        serde_yaml::Value::Tagged(_) => YamlValue::Other,
    }
}

/// What `serde_yaml::from_str::<serde_yaml::Value>` gives for a text, in
/// the library's form: the parsed document, or nothing when the text is
/// not valid YAML.
pub uninterp spec fn yaml_document(source: Seq<char>) -> Option<YamlValue>;

/// `serde_yaml::from_str::<serde_yaml::Value>`: parses a YAML text. The
/// document depends on the text alone.
#[verifier::external_body]
fn parse_yaml_document(source: &str) -> (res: Option<YamlValue>)
    ensures
        res == yaml_document(source@),
{
    match serde_yaml::from_str::<serde_yaml::Value>(source) {
        Ok(value) => Some(document_of(&value)),
        Err(_) => None,
    }
}

/// Builds the bundle of a locale file's text: nothing when the text is not
/// valid YAML, and otherwise the bundle its document describes.
pub fn load_locale(source: &str) -> (bundle: Option<LocaleBundle>)
    ensures
        bundle is None <==> yaml_document(source@) is None,
        bundle matches Some(b) ==> b@ == bundle_of_document(yaml_document(source@)->0),
{
    match parse_yaml_document(source) {
        Some(document) => Some(bundle_from_document(&document)),
        None => None,
    }
}

/// The languages in the order the language picker lists them.
pub const ALL_LANGUAGES: [UiLanguage; 11] = [
    UiLanguage::English,
    UiLanguage::Spanish,
    UiLanguage::Portuguese,
    UiLanguage::French,
    UiLanguage::German,
    UiLanguage::Russian,
    UiLanguage::Ukrainian,
    UiLanguage::Mandarin,
    UiLanguage::Hindi,
    UiLanguage::Japanese,
    UiLanguage::Korean,
];

/// The place of a language in [`ALL_LANGUAGES`].
pub open spec fn language_index(language: UiLanguage) -> int {
    match language {
        UiLanguage::English => 0,
        UiLanguage::Spanish => 1,
        UiLanguage::Portuguese => 2,
        UiLanguage::French => 3,
        UiLanguage::German => 4,
        UiLanguage::Russian => 5,
        UiLanguage::Ukrainian => 6,
        UiLanguage::Mandarin => 7,
        UiLanguage::Hindi => 8,
        UiLanguage::Japanese => 9,
        UiLanguage::Korean => 10,
    }
}

/// Every language stands in [`ALL_LANGUAGES`] at its own place, so the
/// texts and bundles kept in that order are found again by language.
pub proof fn lemma_language_place(language: UiLanguage)
    ensures
        0 <= language_index(language) < 11,
        ALL_LANGUAGES@[language_index(language)] == language,
{
}

fn index_of_language(language: UiLanguage) -> (i: usize)
    ensures
        i == language_index(language),
{
    match language {
        UiLanguage::English => 0,
        UiLanguage::Spanish => 1,
        UiLanguage::Portuguese => 2,
        UiLanguage::French => 3,
        UiLanguage::German => 4,
        UiLanguage::Russian => 5,
        UiLanguage::Ukrainian => 6,
        UiLanguage::Mandarin => 7,
        UiLanguage::Hindi => 8,
        UiLanguage::Japanese => 9,
        UiLanguage::Korean => 10,
    }
}

/// One bundle for each language.
pub struct LocaleCatalog {
    bundles: Vec<LocaleBundle>,
}

impl View for LocaleCatalog {
    /// The bundles, in the order of [`ALL_LANGUAGES`].
    type V = Seq<LocaleBundleView>;

    closed spec fn view(&self) -> Seq<LocaleBundleView> {
        self.bundles@.map_values(|b: LocaleBundle| b@)
    }
}

impl LocaleCatalog {
    #[verifier::type_invariant]
    spec fn holds_every_language(&self) -> bool {
        self.bundles@.len() == 11
    }

    /// A catalogue in which every language has the given English bundle;
    /// the other languages are then set one by one.
    pub fn new(english: LocaleBundle) -> (catalog: Self)
        ensures
            catalog@.len() == 11,
            forall|i: int| 0 <= i < 11 ==> #[trigger] catalog@[i] == english@,
    {
        let mut bundles: Vec<LocaleBundle> = Vec::new();
        for i in 0..11usize
            invariant
                bundles@.len() == i,
                forall|j: int| 0 <= j < i ==> (#[trigger] bundles@[j])@ == english@,
        {
            let copy = LocaleBundle { autonym: english.autonym.clone(), messages: english.messages.copy() };
            bundles.push(copy);
        }
        let catalog = LocaleCatalog { bundles };
        assert(catalog@.len() == 11);
        catalog
    }

    /// The catalogue with the bundle of a language replaced.
    pub fn with_bundle(self, language: UiLanguage, bundle: LocaleBundle) -> (catalog: Self)
        ensures
            catalog@ == self@.update(language_index(language), bundle@),
    {
        proof {
            use_type_invariant(&self);
        }
        let ghost before = self@;
        let i = index_of_language(language);
        let LocaleCatalog { mut bundles } = self;
        let ghost old_bundles = bundles@;
        bundles.set(i, bundle);
        let catalog = LocaleCatalog { bundles };
        assert(catalog@ =~= before.update(i as int, bundle@)) by {
            assert(before =~= old_bundles.map_values(|b: LocaleBundle| b@));
        }
        catalog
    }

    /// The catalogue of the locale files' texts, given in the order of
    /// [`ALL_LANGUAGES`]: each language's bundle is the one its file's
    /// text describes. There is none unless there are eleven texts and
    /// every one is valid YAML.
    pub fn from_locale_texts(texts: &Vec<String>) -> (res: Option<Self>)
        ensures
            res is Some <==> (texts@.len() == 11 && forall|i: int|
                0 <= i < 11 ==> (#[trigger] yaml_document(texts@[i]@)) is Some),
            res matches Some(catalog) ==> catalog@.len() == 11 && forall|i: int|
                0 <= i < 11 ==> #[trigger] catalog@[i] == bundle_of_document(
                    yaml_document(texts@[i]@)->0,
                ),
            res matches Some(catalog) ==> forall|language: UiLanguage|
                #[trigger] catalog@[language_index(language)] == bundle_of_document(
                    yaml_document(texts@[language_index(language)]@)->0,
                ),
    {
        if texts.len() != 11 {
            return None;
        }
        let english = match load_locale(texts[0].as_str()) {
            Some(bundle) => bundle,
            None => return None,
        };
        let mut catalog = LocaleCatalog::new(english);
        let all = ALL_LANGUAGES;
        for i in 1..11usize
            invariant
                all == ALL_LANGUAGES,
                texts@.len() == 11,
                catalog@.len() == 11,
                forall|j: int| 0 <= j < i ==> (#[trigger] yaml_document(texts@[j]@)) is Some,
                forall|j: int|
                    0 <= j < i ==> #[trigger] catalog@[j] == bundle_of_document(
                        yaml_document(texts@[j]@)->0,
                    ),
        {
            let bundle = match load_locale(texts[i].as_str()) {
                Some(bundle) => bundle,
                None => return None,
            };
            catalog = catalog.with_bundle(all[i], bundle);
        }
        Some(catalog)
    }

    /// The bundle of a language.
    pub fn bundle(&self, language: UiLanguage) -> (bundle: &LocaleBundle)
        ensures
            self@.len() == 11,
            bundle@ == self@[language_index(language)],
    {
        proof {
            use_type_invariant(self);
        }
        &self.bundles[index_of_language(language)]
    }
}

/// The text shown for a message key in a language: the language's own
/// text, else the English one, else nothing.
pub open spec fn message_text(catalog: Seq<LocaleBundleView>, language: UiLanguage, key: Seq<char>) -> Seq<char> {
    let own = catalog[language_index(language)].messages;
    let english = catalog[language_index(UiLanguage::English)].messages;
    if own.contains_key(key) {
        own[key]
    } else if english.contains_key(key) {
        english[key]
    } else {
        Seq::empty()
    }
}

/// The name a language gives itself in a catalogue.
pub open spec fn autonym_of(catalog: Seq<LocaleBundleView>, language: UiLanguage) -> Seq<char> {
    catalog[language_index(language)].autonym
}

/// The current language of the interface. The texts themselves live in a
/// [`LocaleCatalog`], which every lookup is given.
#[derive(Clone, Copy)]
pub struct I18n {
    language: UiLanguage,
}

impl View for I18n {
    type V = UiLanguage;

    closed spec fn view(&self) -> UiLanguage {
        self.language
    }
}

impl I18n {
    pub fn new(language: UiLanguage) -> (i18n: Self)
        ensures
            i18n@ == language,
    {
        I18n { language }
    }

    pub fn language(&self) -> (language: UiLanguage)
        ensures
            language == self@,
    {
        self.language
    }

    /// Switches the language: afterwards the value is the one `new` builds
    /// for that language, whatever it held before.
    pub fn set_language(&mut self, language: UiLanguage)
        ensures
            final(self)@ == language,
    {
        self.language = language;
    }

    /// The text of a message key in the current language, falling back to
    /// English, and to the empty text when neither has the key.
    pub fn tr<'a>(&self, catalog: &'a LocaleCatalog, key: &str) -> (text: &'a str)
        ensures
            text@ == message_text(catalog@, self@, key@),
    {
        let own = catalog.bundle(self.language);
        match own.messages.get(key) {
            Some(text) => text.as_str(),
            None => {
                let english = catalog.bundle(UiLanguage::English);
                match english.messages.get(key) {
                    Some(text) => text.as_str(),
                    None => {
                        proof {
                            reveal_strlit("");
                        }
                        ""
                    },
                }
            },
        }
    }

    /// The name a language gives itself. It depends on the catalogue and
    /// the language asked about alone, not on the current language.
    pub fn language_label<'a>(&self, catalog: &'a LocaleCatalog, language: UiLanguage) -> (label: &'a str)
        ensures
            label@ == autonym_of(catalog@, language),
    {
        catalog.bundle(language).autonym.as_str()
    }
}

} // verus!
