//! Reading the translator settings (a `config` crate `Config`) with their
//! defaults, and writing the shortcuts back into the TOML settings file.
use config::Config;
use toml_edit::DocumentMut;
use vstd::prelude::*;

use crate::hotkey::HotkeyConfig;
use crate::persistence::{DEFAULT_API_URL, DEFAULT_THEME};

verus! {

#[verifier::external_type_specification]
#[verifier::external_body]
pub struct ExConfig(Config);

/// The settings that read as strings: each key expression (such as
/// `window.theme`) for which `Config::get_string` succeeds, with the string
/// it gives.
pub uninterp spec fn config_strings(settings: Config) -> Map<Seq<char>, Seq<char>>;

/// Reads a setting as a string (`Config::get_string`); `None` when the key
/// is missing or its value does not convert to a string.
#[verifier::external_body]
fn settings_string(settings: &Config, key: &str) -> (r: Option<String>)
    ensures
        match r {
            Some(v) => config_strings(*settings).contains_key(key@) && config_strings(
                *settings,
            )[key@] == v@,
            None => !config_strings(*settings).contains_key(key@),
        },
{
    settings.get_string(key).ok()
}

/// The string setting `key`, or `default` when it is not set.
pub open spec fn setting_or(settings: Map<Seq<char>, Seq<char>>, key: Seq<char>, default: Seq<
    char,
>) -> Seq<char> {
    if settings.contains_key(key) {
        settings[key]
    } else {
        default
    }
}

/// The string setting `key`, or else the setting `fallback`, or else
/// `default`.
pub open spec fn setting_or_else(
    settings: Map<Seq<char>, Seq<char>>,
    key: Seq<char>,
    fallback: Seq<char>,
    default: Seq<char>,
) -> Seq<char> {
    if settings.contains_key(key) {
        settings[key]
    } else {
        setting_or(settings, fallback, default)
    }
}

/// A configured value, or `default` when there is none.
pub fn value_or(value: Option<String>, default: &str) -> (r: String)
    ensures
        r@ == match value {
            Some(v) => v@,
            None => default@,
        },
{
    match value {
        Some(v) => v,
        None => String::from_str(default),
    }
}

/// The translation endpoint: setting `api`, by default the public DeepL
/// proxy.
pub fn get_api(settings: &Config) -> (r: String)
    ensures
        r@ == setting_or(config_strings(*settings), "api"@, DEFAULT_API_URL@),
{
    value_or(settings_string(settings, "api"), DEFAULT_API_URL)
}

/// The theme name: setting `window.theme`, by default `dark`.
pub fn get_theme(settings: &Config) -> (r: String)
    ensures
        r@ == setting_or(config_strings(*settings), "window.theme"@, DEFAULT_THEME@),
{
    value_or(settings_string(settings, "window.theme"), DEFAULT_THEME)
}

/// The shortcuts: `hotkey.open_translator` (formerly `hotkey.launch`),
/// `hotkey.translate_selection`, `hotkey.open_clipboard`,
/// `hotkey.record_dictation`, and `hotkey.quit_app` (formerly
/// `hotkey.quit`), each with its default.
pub fn get_hotkey_config(settings: &Config) -> (r: HotkeyConfig)
    ensures
        r.open_translator@ == setting_or_else(
            config_strings(*settings),
            "hotkey.open_translator"@,
            "hotkey.launch"@,
            HotkeyConfig::DEFAULT_OPEN_TRANSLATOR@,
        ),
        r.translate_selection@ == setting_or(
            config_strings(*settings),
            "hotkey.translate_selection"@,
            HotkeyConfig::DEFAULT_TRANSLATE_SELECTION@,
        ),
        r.open_clipboard@ == setting_or(
            config_strings(*settings),
            "hotkey.open_clipboard"@,
            HotkeyConfig::DEFAULT_OPEN_CLIPBOARD@,
        ),
        r.record_dictation@ == setting_or(
            config_strings(*settings),
            "hotkey.record_dictation"@,
            HotkeyConfig::DEFAULT_RECORD_DICTATION@,
        ),
        r.quit_app@ == setting_or_else(
            config_strings(*settings),
            "hotkey.quit_app"@,
            "hotkey.quit"@,
            HotkeyConfig::DEFAULT_QUIT_APP@,
        ),
{
    let open_translator = match settings_string(settings, "hotkey.open_translator") {
        Some(v) => v,
        None => value_or(
            settings_string(settings, "hotkey.launch"),
            HotkeyConfig::DEFAULT_OPEN_TRANSLATOR,
        ),
    };
    let translate_selection = value_or(
        settings_string(settings, "hotkey.translate_selection"),
        HotkeyConfig::DEFAULT_TRANSLATE_SELECTION,
    );
    let open_clipboard = value_or(
        settings_string(settings, "hotkey.open_clipboard"),
        HotkeyConfig::DEFAULT_OPEN_CLIPBOARD,
    );
    let record_dictation = value_or(
        settings_string(settings, "hotkey.record_dictation"),
        HotkeyConfig::DEFAULT_RECORD_DICTATION,
    );
    let quit_app = match settings_string(settings, "hotkey.quit_app") {
        Some(v) => v,
        None => value_or(settings_string(settings, "hotkey.quit"), HotkeyConfig::DEFAULT_QUIT_APP),
    };
    HotkeyConfig { open_translator, translate_selection, open_clipboard, record_dictation, quit_app }
}

#[verifier::external_type_specification]
#[verifier::external_body]
pub struct ExDocumentMut(DocumentMut);

/// A key path in a TOML document: the keys of the enclosing tables or
/// inline tables, then the value's own key.
pub type TomlPath = Seq<Seq<char>>;

/// The values of a TOML document that are not tables, each by its key path
/// (values inside arrays of tables are not counted): a string as `true`
/// and its text, any other value (number, boolean, date, array) as `false`
/// and the value as the document writes it.
pub uninterp spec fn toml_values(doc: DocumentMut) -> Map<TomlPath, (bool, Seq<char>)>;

/// The top-level keys of a TOML document that hold an item, each with
/// whether that item is a table or an inline table.
pub uninterp spec fn toml_top_level(doc: DocumentMut) -> Map<Seq<char>, bool>;

/// What `toml_edit` parses from a text: `None` when the text is not valid
/// TOML, otherwise the values and the top-level keys of the document, as
/// `toml_values` and `toml_top_level` give them.
pub uninterp spec fn toml_parse(text: Seq<char>) -> Option<
    (Map<TomlPath, (bool, Seq<char>)>, Map<Seq<char>, bool>),
>;

/// Parses a TOML document (`DocumentMut: FromStr`); `None` when the text
/// is not valid TOML. The document's contents are those that `toml_parse`
/// names for the text.
#[verifier::external_body]
fn parse_document(text: &str) -> (r: Option<DocumentMut>)
    ensures
        match r {
            Some(d) => toml_parse(text@) == Some((toml_values(d), toml_top_level(d))),
            None => toml_parse(text@) is None,
        },
{
    text.parse::<DocumentMut>().ok()
}

/// An empty TOML document (`DocumentMut::new`).
#[verifier::external_body]
fn new_document() -> (doc: DocumentMut)
    ensures
        toml_values(doc).is_empty(),
        toml_top_level(doc).is_empty(),
{
    DocumentMut::new()
}

/// Whether the top-level key `key` is free or holds a table or an inline
/// table (`Table::get` and `Item::is_table_like`).
#[verifier::external_body]
fn top_level_table_like(doc: &DocumentMut, key: &str) -> (r: bool)
    ensures
        r == (!toml_top_level(*doc).contains_key(key@) || toml_top_level(*doc)[key@]),
{
    match doc.get(key) {
        None => true,
        Some(item) => item.is_table_like(),
    }
}

/// Sets `doc[table][key]` to the string `value` (`IndexMut` and
/// `toml_edit::value`): a missing `table` becomes an inline table, the item
/// at `key` is replaced (with whatever it held below it), and nothing else
/// changes.
#[verifier::external_body]
fn set_string(doc: &mut DocumentMut, table: &str, key: &str, value: &String)
    requires
        !toml_top_level(*old(doc)).contains_key(table@) || toml_top_level(*old(doc))[table@],
    ensures
        toml_top_level(*final(doc)) == toml_top_level(*old(doc)).insert(table@, true),
        toml_values(*final(doc)) == replaced_at(
            toml_values(*old(doc)),
            seq![table@, key@],
            (true, value@),
        ),
{
    doc[table][key] = toml_edit::value(value);
}

/// The text that `toml_edit` renders for a document, with the formatting
/// and comments that it keeps.
pub uninterp spec fn toml_render(doc: DocumentMut) -> Seq<char>;

/// The text of a TOML document (`DocumentMut: Display`), as `toml_render`
/// names it.
#[verifier::external_body]
fn document_text(doc: &DocumentMut) -> (r: String)
    ensures
        r@ == toml_render(*doc),
{
    doc.to_string()
}

/// `p` starts with `prefix`.
pub open spec fn has_prefix(p: TomlPath, prefix: TomlPath) -> bool {
    prefix.len() <= p.len() && p.take(prefix.len() as int) == prefix
}

/// The values after the item at `path` is replaced by `value`: values at
/// or below `path` go, `path` maps to `value`, the others stay.
pub open spec fn replaced_at(
    values: Map<TomlPath, (bool, Seq<char>)>,
    path: TomlPath,
    value: (bool, Seq<char>),
) -> Map<TomlPath, (bool, Seq<char>)> {
    Map::new(
        |p: TomlPath| p == path || (values.contains_key(p) && !has_prefix(p, path)),
        |p: TomlPath| if p == path {
            value
        } else {
            values[p]
        },
    )
}

/// The key path of the shortcut setting `name`.
pub open spec fn hotkey_path(name: Seq<char>) -> TomlPath {
    seq!["hotkey"@, name]
}

/// The values after the five shortcuts are written, as strings, into the
/// `hotkey` table.
pub open spec fn with_hotkeys(values: Map<TomlPath, (bool, Seq<char>)>, config: HotkeyConfig) -> Map<
    TomlPath,
    (bool, Seq<char>),
> {
    replaced_at(
        replaced_at(
            replaced_at(
                replaced_at(
                    replaced_at(
                        values,
                        hotkey_path("open_translator"@),
                        (true, config.open_translator@),
                    ),
                    hotkey_path("translate_selection"@),
                    (true, config.translate_selection@),
                ),
                hotkey_path("open_clipboard"@),
                (true, config.open_clipboard@),
            ),
            hotkey_path("record_dictation"@),
            (true, config.record_dictation@),
        ),
        hotkey_path("quit_app"@),
        (true, config.quit_app@),
    )
}

/// Writes the five shortcuts into the `hotkey` table of `doc`, leaving the
/// rest of the document as it is.
pub fn write_hotkeys(doc: &mut DocumentMut, config: &HotkeyConfig)
    requires
        !toml_top_level(*old(doc)).contains_key("hotkey"@) || toml_top_level(
            *old(doc),
        )["hotkey"@],
    ensures
        toml_values(*final(doc)) == with_hotkeys(toml_values(*old(doc)), *config),
        toml_top_level(*final(doc)) == toml_top_level(*old(doc)).insert("hotkey"@, true),
{
    set_string(doc, "hotkey", "open_translator", &config.open_translator);
    set_string(doc, "hotkey", "translate_selection", &config.translate_selection);
    set_string(doc, "hotkey", "open_clipboard", &config.open_clipboard);
    set_string(doc, "hotkey", "record_dictation", &config.record_dictation);
    set_string(doc, "hotkey", "quit_app", &config.quit_app);
    proof {
        let t = toml_top_level(*old(doc));
        assert(t.insert("hotkey"@, true).insert("hotkey"@, true).insert("hotkey"@, true).insert(
            "hotkey"@,
            true,
        ).insert("hotkey"@, true) =~= t.insert("hotkey"@, true));
    }
}

/// The values and top-level keys that the settings text starts from:
/// those of `content` when it parses as TOML, otherwise none.
pub open spec fn settings_base(content: Seq<char>) -> (
    Map<TomlPath, (bool, Seq<char>)>,
    Map<Seq<char>, bool>,
) {
    match toml_parse(content) {
        Some(parsed) => parsed,
        None => (Map::empty(), Map::empty()),
    }
}

/// The settings text with the shortcuts written into its `hotkey` table:
/// the existing settings are kept when they parse as TOML, otherwise the
/// shortcuts start a new document. `None` when the settings already have a
/// `hotkey` entry that is not a table.
pub fn hotkey_settings_text(content: &str, config: &HotkeyConfig) -> (r: Option<String>)
    ensures
        ({
            let (values, top) = settings_base(content@);
            if top.contains_key("hotkey"@) && !top["hotkey"@] {
                r is None
            } else {
                r matches Some(text) && exists|d: DocumentMut|
                    #![trigger toml_render(d)]
                    toml_values(d) == with_hotkeys(values, *config) && toml_top_level(d)
                        == top.insert("hotkey"@, true) && text@ == toml_render(d)
            }
        }),
{
    let mut doc = match parse_document(content) {
        Some(d) => d,
        None => {
            let d = new_document();
            proof {
                assert(toml_values(d) =~= Map::empty());
                assert(toml_top_level(d) =~= Map::empty());
            }
            d
        },
    };
    if !top_level_table_like(&doc, "hotkey") {
        return None;
    }
    write_hotkeys(&mut doc, config);
    let text = document_text(&doc);
    proof {
        assert(toml_render(doc) == text@);
    }
    Some(text)
}

/// The names of the five shortcut settings.
pub open spec fn hotkey_names() -> Seq<Seq<char>> {
    seq![
        "open_translator"@,
        "translate_selection"@,
        "open_clipboard"@,
        "record_dictation"@,
        "quit_app"@,
    ]
}

/// Writing the shortcuts keeps every value (string or not) outside the
/// five shortcut keys and what lay below them, and sets each shortcut to
/// its string.
pub proof fn lemma_with_hotkeys_keeps_other_settings(
    values: Map<TomlPath, (bool, Seq<char>)>,
    config: HotkeyConfig,
    p: TomlPath,
)
    ensures
        (forall|i: int| 0 <= i < 5 ==> !has_prefix(p, #[trigger] hotkey_path(hotkey_names()[i])))
            ==> (with_hotkeys(values, config).contains_key(p) == values.contains_key(p) && (
        values.contains_key(p) ==> with_hotkeys(values, config)[p] == values[p])),
        with_hotkeys(values, config)[hotkey_path("open_translator"@)] == (
            true,
            config.open_translator@,
        ),
        with_hotkeys(values, config)[hotkey_path("translate_selection"@)] == (
            true,
            config.translate_selection@,
        ),
        with_hotkeys(values, config)[hotkey_path("open_clipboard"@)] == (
            true,
            config.open_clipboard@,
        ),
        with_hotkeys(values, config)[hotkey_path("record_dictation"@)] == (
            true,
            config.record_dictation@,
        ),
        with_hotkeys(values, config)[hotkey_path("quit_app"@)] == (true, config.quit_app@),
{
    reveal_strlit("open_translator");
    reveal_strlit("translate_selection");
    reveal_strlit("open_clipboard");
    reveal_strlit("record_dictation");
    reveal_strlit("quit_app");
    let names = hotkey_names();
    assert(names[0].len() == 15 && names[1].len() == 19 && names[2].len() == 14 && names[3].len()
        == 16 && names[4].len() == 8);
    assert(names[2][0] != names[3][0] && names[2][0] != names[4][0] && names[3][0] != names[4][0]);
    assert forall|i: int, j: int| 0 <= i < j < 5 implies !has_prefix(
        hotkey_path(names[i]),
        hotkey_path(names[j]),
    ) && hotkey_path(names[i]) != hotkey_path(names[j]) by {
        assert(hotkey_path(names[i]).len() == 2 && hotkey_path(names[j]).len() == 2);
        assert(hotkey_path(names[i])[1] == names[i]);
        assert(hotkey_path(names[j])[1] == names[j]);
        assert(hotkey_path(names[j]).take(2) =~= hotkey_path(names[j]));
        assert(names[i] != names[j]);
    }
    assert forall|i: int, j: int| 0 <= i < j < 5 implies !has_prefix(
        hotkey_path(names[j]),
        hotkey_path(names[i]),
    ) by {
        assert(hotkey_path(names[i]).take(2) =~= hotkey_path(names[i]));
        assert(hotkey_path(names[i])[1] == names[i]);
        assert(hotkey_path(names[j])[1] == names[j]);
        assert(names[i] != names[j]);
    }
    assert(names[0] == "open_translator"@);
    assert(names[1] == "translate_selection"@);
    assert(names[2] == "open_clipboard"@);
    assert(names[3] == "record_dictation"@);
    assert(names[4] == "quit_app"@);
    if forall|i: int| 0 <= i < 5 ==> !has_prefix(p, #[trigger] hotkey_path(hotkey_names()[i])) {
        assert forall|i: int| 0 <= i < 5 implies p != #[trigger] hotkey_path(names[i]) by {
            assert(!has_prefix(p, hotkey_path(names[i])));
            if p == hotkey_path(names[i]) {
                assert(p.take(2) =~= p);
            }
        }
        assert(p != hotkey_path(names[0]));
        assert(p != hotkey_path(names[1]));
        assert(p != hotkey_path(names[2]));
        assert(p != hotkey_path(names[3]));
        assert(p != hotkey_path(names[4]));
        assert(!has_prefix(p, hotkey_path(names[0])));
        assert(!has_prefix(p, hotkey_path(names[1])));
        assert(!has_prefix(p, hotkey_path(names[2])));
        assert(!has_prefix(p, hotkey_path(names[3])));
        assert(!has_prefix(p, hotkey_path(names[4])));
    }
    assert(!has_prefix(hotkey_path(names[0]), hotkey_path(names[1])));
    assert(!has_prefix(hotkey_path(names[0]), hotkey_path(names[2])));
    assert(!has_prefix(hotkey_path(names[0]), hotkey_path(names[3])));
    assert(!has_prefix(hotkey_path(names[0]), hotkey_path(names[4])));
    assert(!has_prefix(hotkey_path(names[1]), hotkey_path(names[2])));
    assert(!has_prefix(hotkey_path(names[1]), hotkey_path(names[3])));
    assert(!has_prefix(hotkey_path(names[1]), hotkey_path(names[4])));
    assert(!has_prefix(hotkey_path(names[2]), hotkey_path(names[3])));
    assert(!has_prefix(hotkey_path(names[2]), hotkey_path(names[4])));
    assert(!has_prefix(hotkey_path(names[3]), hotkey_path(names[4])));
    assert(hotkey_path(names[0]) != hotkey_path(names[1]));
    assert(hotkey_path(names[0]) != hotkey_path(names[2]));
    assert(hotkey_path(names[0]) != hotkey_path(names[3]));
    assert(hotkey_path(names[0]) != hotkey_path(names[4]));
    assert(hotkey_path(names[1]) != hotkey_path(names[2]));
    assert(hotkey_path(names[1]) != hotkey_path(names[3]));
    assert(hotkey_path(names[1]) != hotkey_path(names[4]));
    assert(hotkey_path(names[2]) != hotkey_path(names[3]));
    assert(hotkey_path(names[2]) != hotkey_path(names[4]));
    assert(hotkey_path(names[3]) != hotkey_path(names[4]));
}

} // verus!
