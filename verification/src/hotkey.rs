//! Application-wide system shortcuts: their configuration, its validation,
//! and a service that registers them with the operating system through
//! `global-hotkey` and maps the events it reports back to actions.
use std::collections::{HashMap, HashSet};

use global_hotkey::hotkey::HotKey;
use global_hotkey::{GlobalHotKeyEvent, GlobalHotKeyManager, HotKeyState};
use vstd::prelude::*;

verus! {

broadcast use vstd::std_specs::hash::group_hash_axioms;

/// What a shortcut does.
#[derive(Debug, Clone, Copy, PartialEq, Eq, Hash, Structural)]
pub enum HotkeyAction {
    OpenTranslator,
    TranslateSelection,
    OpenClipboard,
    RecordDictation,
    QuitApp,
}

/// The shortcut text of each action, as the user writes it
/// (for example `CmdOrCtrl+Shift+T`).
#[derive(Debug, Clone, PartialEq, Eq)]
pub struct HotkeyConfig {
    pub open_translator: String,
    pub translate_selection: String,
    pub open_clipboard: String,
    pub record_dictation: String,
    pub quit_app: String,
}

/// The actions of the shortcuts, in the order of the configuration.
pub open spec fn all_actions() -> Seq<HotkeyAction> {
    seq![action_at(0), action_at(1), action_at(2), action_at(3), action_at(4)]
}

/// The action of the `i`-th shortcut, in the order of the configuration.
pub open spec fn action_at(i: int) -> HotkeyAction {
    if i == 0 {
        HotkeyAction::OpenTranslator
    } else if i == 1 {
        HotkeyAction::TranslateSelection
    } else if i == 2 {
        HotkeyAction::OpenClipboard
    } else if i == 3 {
        HotkeyAction::RecordDictation
    } else {
        HotkeyAction::QuitApp
    }
}

impl HotkeyConfig {
    pub const DEFAULT_OPEN_TRANSLATOR: &'static str = "Alt+Q";

    pub const DEFAULT_TRANSLATE_SELECTION: &'static str = "CmdOrCtrl+Shift+T";

    pub const DEFAULT_OPEN_CLIPBOARD: &'static str = "CmdOrCtrl+Shift+V";

    pub const DEFAULT_RECORD_DICTATION: &'static str = "CmdOrCtrl+Shift+Space";

    pub const DEFAULT_QUIT_APP: &'static str = "CmdOrCtrl+Shift+D";

    /// The shortcut texts in the order open translator, translate
    /// selection, open clipboard history, record dictation, quit.
    pub open spec fn texts(self) -> Seq<Seq<char>> {
        seq![
            self.open_translator@,
            self.translate_selection@,
            self.open_clipboard@,
            self.record_dictation@,
            self.quit_app@,
        ]
    }

    /// Each action with its shortcut text.
    pub fn entries(&self) -> (r: [(HotkeyAction, &str); 5])
        ensures
            forall|i: int| 0 <= i < 5 ==> #[trigger] r[i].0 == action_at(i) && r[i].1@ == self.texts()[i],
    {
        [
            (HotkeyAction::OpenTranslator, self.open_translator.as_str()),
            (HotkeyAction::TranslateSelection, self.translate_selection.as_str()),
            (HotkeyAction::OpenClipboard, self.open_clipboard.as_str()),
            (HotkeyAction::RecordDictation, self.record_dictation.as_str()),
            (HotkeyAction::QuitApp, self.quit_app.as_str()),
        ]
    }

    /// Checks that every shortcut parses and that no two shortcuts are the
    /// same key combination.
    pub fn validate(&self) -> (r: Result<(), HotkeyRegistrationError>)
        ensures
            match r {
                Ok(()) => all_parse(self.texts()) && first_duplicate(parsed_ids(self.texts()))
                    is None,
                Err(HotkeyRegistrationError::Parse { action, hotkey, .. }) => {
                    &&& first_parse_failure(self.texts()) matches Some(i)
                    &&& action == action_at(i)
                    &&& hotkey@ == self.texts()[i]
                },
                Err(HotkeyRegistrationError::Duplicate { action, .. }) => {
                    &&& all_parse(self.texts())
                    &&& first_duplicate(parsed_ids(self.texts())) matches Some(j)
                    &&& action == action_at(j)
                },
                Err(_) => false,
            },
    {
        let parsed = parse_hotkeys(self)?;
        let r = check_duplicates(&parsed);
        proof {
            let ids = parsed@.map_values(|p: ParsedHotkey| p.id);
            assert forall|k: int| 0 <= k < 5 implies ids[k] == parsed_ids(self.texts())[k] by {
                assert(parsed[k].id == parsed_ids(self.texts())[k]);
            }
            assert(ids =~= parsed_ids(self.texts()));
        }
        r
    }
}

impl Default for HotkeyConfig {
    fn default() -> (c: Self)
        ensures
            c.open_translator@ == HotkeyConfig::DEFAULT_OPEN_TRANSLATOR@,
            c.translate_selection@ == HotkeyConfig::DEFAULT_TRANSLATE_SELECTION@,
            c.open_clipboard@ == HotkeyConfig::DEFAULT_OPEN_CLIPBOARD@,
            c.record_dictation@ == HotkeyConfig::DEFAULT_RECORD_DICTATION@,
            c.quit_app@ == HotkeyConfig::DEFAULT_QUIT_APP@,
    {
        HotkeyConfig {
            open_translator: default_open_translator(),
            translate_selection: default_translate_selection(),
            open_clipboard: default_open_clipboard(),
            record_dictation: default_record_dictation(),
            quit_app: default_quit_app(),
        }
    }
}

/// The default shortcut for opening the translator.
pub fn default_open_translator() -> (r: String)
    ensures
        r@ == HotkeyConfig::DEFAULT_OPEN_TRANSLATOR@,
{
    String::from_str(HotkeyConfig::DEFAULT_OPEN_TRANSLATOR)
}

/// The default shortcut for translating the selection.
pub fn default_translate_selection() -> (r: String)
    ensures
        r@ == HotkeyConfig::DEFAULT_TRANSLATE_SELECTION@,
{
    String::from_str(HotkeyConfig::DEFAULT_TRANSLATE_SELECTION)
}

/// The default shortcut for opening the clipboard history.
pub fn default_open_clipboard() -> (r: String)
    ensures
        r@ == HotkeyConfig::DEFAULT_OPEN_CLIPBOARD@,
{
    String::from_str(HotkeyConfig::DEFAULT_OPEN_CLIPBOARD)
}

/// The default shortcut for recording dictation.
pub fn default_record_dictation() -> (r: String)
    ensures
        r@ == HotkeyConfig::DEFAULT_RECORD_DICTATION@,
{
    String::from_str(HotkeyConfig::DEFAULT_RECORD_DICTATION)
}

/// The default shortcut for quitting.
pub fn default_quit_app() -> (r: String)
    ensures
        r@ == HotkeyConfig::DEFAULT_QUIT_APP@,
{
    String::from_str(HotkeyConfig::DEFAULT_QUIT_APP)
}

/// Why shortcuts could not be validated, registered or unregistered.
#[derive(Debug, Clone, PartialEq, Eq)]
pub enum HotkeyRegistrationError {
    Parse { action: HotkeyAction, hotkey: String, message: String },
    Duplicate { action: HotkeyAction, hotkey: String },
    Manager(String),
    Register { action: HotkeyAction, hotkey: String, message: String },
    Unregister(String),
}

/// The name of an action as it appears in messages.
pub open spec fn action_name(action: HotkeyAction) -> Seq<char> {
    match action {
        HotkeyAction::OpenTranslator => "OpenTranslator"@,
        HotkeyAction::TranslateSelection => "TranslateSelection"@,
        HotkeyAction::OpenClipboard => "OpenClipboard"@,
        HotkeyAction::RecordDictation => "RecordDictation"@,
        HotkeyAction::QuitApp => "QuitApp"@,
    }
}

/// The name of an action as it appears in messages.
pub fn action_label(action: HotkeyAction) -> (r: &'static str)
    ensures
        r@ == action_name(action),
{
    match action {
        HotkeyAction::OpenTranslator => "OpenTranslator",
        HotkeyAction::TranslateSelection => "TranslateSelection",
        HotkeyAction::OpenClipboard => "OpenClipboard",
        HotkeyAction::RecordDictation => "RecordDictation",
        HotkeyAction::QuitApp => "QuitApp",
    }
}

/// The text shown for a registration error.
pub open spec fn registration_message(e: HotkeyRegistrationError) -> Seq<char> {
    match e {
        HotkeyRegistrationError::Parse { action, hotkey, message } => "invalid hotkey for "@
            + action_name(action) + " ("@ + hotkey@ + "): "@ + message@,
        HotkeyRegistrationError::Duplicate { action, hotkey } => "duplicate hotkey for "@
            + action_name(action) + ": "@ + hotkey@,
        HotkeyRegistrationError::Manager(message) => "hotkey manager unavailable: "@ + message@,
        HotkeyRegistrationError::Register { action, hotkey, message } => "failed to register "@
            + action_name(action) + " ("@ + hotkey@ + "): "@ + message@,
        HotkeyRegistrationError::Unregister(message) => "failed to unregister hotkeys: "@
            + message@,
    }
}

fn append(s: &mut String, t: &str)
    ensures
        final(s)@ == old(s)@ + t@,
{
    s.append(t);
}

impl HotkeyRegistrationError {
    /// The text shown for the error.
    pub fn message(&self) -> (r: String)
        ensures
            r@ == registration_message(*self),
    {
        match self {
            HotkeyRegistrationError::Parse { action, hotkey, message } => {
                let mut r = String::from_str("invalid hotkey for ");
                append(&mut r, action_label(*action));
                append(&mut r, " (");
                append(&mut r, hotkey.as_str());
                append(&mut r, "): ");
                append(&mut r, message.as_str());
                r
            },
            HotkeyRegistrationError::Duplicate { action, hotkey } => {
                let mut r = String::from_str("duplicate hotkey for ");
                append(&mut r, action_label(*action));
                append(&mut r, ": ");
                append(&mut r, hotkey.as_str());
                r
            },
            HotkeyRegistrationError::Manager(message) => {
                let mut r = String::from_str("hotkey manager unavailable: ");
                append(&mut r, message.as_str());
                r
            },
            HotkeyRegistrationError::Register { action, hotkey, message } => {
                let mut r = String::from_str("failed to register ");
                append(&mut r, action_label(*action));
                append(&mut r, " (");
                append(&mut r, hotkey.as_str());
                append(&mut r, "): ");
                append(&mut r, message.as_str());
                r
            },
            HotkeyRegistrationError::Unregister(message) => {
                let mut r = String::from_str("failed to unregister hotkeys: ");
                append(&mut r, message.as_str());
                r
            },
        }
    }
}

#[verifier::external_type_specification]
#[verifier::external_body]
pub struct ExHotKey(HotKey);

#[verifier::external_type_specification]
#[verifier::external_body]
pub struct ExGlobalHotKeyManager(GlobalHotKeyManager);

/// The id of the shortcut that `global-hotkey` parses from `text`, or
/// `None` when it does not parse. (`CmdOrCtrl` stands for the Command key
/// on macOS and for Control elsewhere.)
pub uninterp spec fn hotkey_parse(text: Seq<char>) -> Option<u32>;

/// Parses a shortcut text with `global-hotkey` (`HotKey: FromStr`). The id
/// returned is the parsed hotkey's `id` field; the error is the parse
/// error's message.
#[verifier::external_body]
fn parse_hotkey(text: &str) -> (r: Result<(HotKey, u32), String>)
    ensures
        match r {
            Ok((_, id)) => hotkey_parse(text@) == Some(id),
            Err(_) => hotkey_parse(text@) is None,
        },
{
    text.parse::<HotKey>().map(|h| (h, h.id)).map_err(|e| e.to_string())
}

/// The canonical text of a parsed shortcut (`HotKey: Display`), such as
/// `shift+alt+KeyQ`. Nothing is stated of it.
#[verifier::external_body]
fn hotkey_label(h: &HotKey) -> String {
    h.to_string()
}

/// Every shortcut text parses.
pub open spec fn all_parse(texts: Seq<Seq<char>>) -> bool {
    forall|i: int| 0 <= i < texts.len() ==> #[trigger] hotkey_parse(texts[i]) is Some
}

/// The ids of the parsed shortcuts, in order.
pub open spec fn parsed_ids(texts: Seq<Seq<char>>) -> Seq<u32> {
    texts.map_values(|t: Seq<char>| hotkey_parse(t).unwrap())
}

/// The first shortcut that does not parse, if any.
pub open spec fn first_parse_failure(texts: Seq<Seq<char>>) -> Option<int> {
    if exists|i: int| 0 <= i < texts.len() && #[trigger] hotkey_parse(texts[i]) is None {
        Some(
            choose|i: int|
                0 <= i < texts.len() && hotkey_parse(texts[i]) is None && forall|k: int|
                    0 <= k < i ==> #[trigger] hotkey_parse(texts[k]) is Some,
        )
    } else {
        None
    }
}

/// The first position whose id already occurred before it, if any.
pub open spec fn first_duplicate(ids: Seq<u32>) -> Option<int> {
    if exists|j: int| 0 <= j < ids.len() && #[trigger] repeats_before(ids, j) {
        Some(
            choose|j: int|
                0 <= j < ids.len() && repeats_before(ids, j) && forall|k: int|
                    0 <= k < j ==> !#[trigger] repeats_before(ids, k),
        )
    } else {
        None
    }
}

/// `ids[j]` already occurs before position `j`.
pub open spec fn repeats_before(ids: Seq<u32>, j: int) -> bool {
    exists|i: int| 0 <= i < j && ids[i] == ids[j]
}

/// A shortcut parsed for an action.
pub struct ParsedHotkey {
    pub action: HotkeyAction,
    pub hotkey: HotKey,
    pub id: u32,
}

/// Parses the three shortcuts of `config` in order, stopping at the first
/// that does not parse.
fn parse_hotkeys(config: &HotkeyConfig) -> (r: Result<Vec<ParsedHotkey>, HotkeyRegistrationError>)
    ensures
        match r {
            Ok(v) => {
                &&& all_parse(config.texts())
                &&& v.len() == 5
                &&& forall|i: int|
                    #![trigger v[i]]
                    0 <= i < 5 ==> v[i].action == action_at(i) && v[i].id == parsed_ids(
                        config.texts(),
                    )[i]
            },
            Err(HotkeyRegistrationError::Parse { action, hotkey, .. }) => {
                &&& first_parse_failure(config.texts()) matches Some(i)
                &&& action == action_at(i)
                &&& hotkey@ == config.texts()[i]
            },
            Err(_) => false,
        },
{
    let entries = config.entries();
    let ghost texts = config.texts();
    let mut parsed: Vec<ParsedHotkey> = Vec::new();
    let mut i: usize = 0;
    while i < 5
        invariant
            i <= 5,
            texts == config.texts(),
            forall|k: int| 0 <= k < 5 ==> #[trigger] entries[k].0 == action_at(k) && entries[k].1@
                == texts[k],
            parsed.len() == i,
            forall|k: int| 0 <= k < i ==> #[trigger] hotkey_parse(texts[k]) is Some,
            forall|k: int|
                #![trigger parsed[k]]
                0 <= k < i ==> parsed[k].action == action_at(k) && hotkey_parse(texts[k]) == Some(
                    parsed[k].id,
                ),
        decreases 5 - i,
    {
        let (action, text) = entries[i];
        match parse_hotkey(text) {
            Ok((hotkey, id)) => {
                parsed.push(ParsedHotkey { action, hotkey, id });
            },
            Err(message) => {
                proof {
                    assert(hotkey_parse(texts[i as int]) is None);
                    let fi = first_parse_failure(texts);
                    assert(fi matches Some(j) && j == i) by {
                        assert(exists|k: int| 0 <= k < texts.len() && #[trigger] hotkey_parse(texts[k]) is None) by {
                            assert(hotkey_parse(texts[i as int]) is None);
                        }
                        let j = choose|j: int|
                            0 <= j < texts.len() && hotkey_parse(texts[j]) is None && forall|k: int|
                                0 <= k < j ==> #[trigger] hotkey_parse(texts[k]) is Some;
                        assert(i as int <= j) by {
                            if (i as int) > j {
                                assert(hotkey_parse(texts[j]) is Some);
                            }
                        }
                        assert(j <= i as int) by {
                            if j > (i as int) {
                                assert(hotkey_parse(texts[i as int]) is Some);
                            }
                        }
                    }
                }
                return Err(
                    HotkeyRegistrationError::Parse {
                        action,
                        hotkey: String::from_str(text),
                        message,
                    },
                );
            },
        }
        i = i + 1;
    }
    proof {
        assert forall|k: int| 0 <= k < 5 implies #[trigger] parsed[k].id == parsed_ids(
            texts,
        )[k] by {
            assert(hotkey_parse(texts[k]) == Some(parsed[k].id));
        }
    }
    Ok(parsed)
}

/// Rejects the first shortcut whose key combination already occurred
/// earlier in `parsed`.
fn check_duplicates(parsed: &Vec<ParsedHotkey>) -> (r: Result<(), HotkeyRegistrationError>)
    ensures
        match r {
            Ok(()) => first_duplicate(parsed@.map_values(|p: ParsedHotkey| p.id)) is None,
            Err(HotkeyRegistrationError::Duplicate { action, .. }) => {
                &&& first_duplicate(parsed@.map_values(|p: ParsedHotkey| p.id)) matches Some(j)
                &&& action == parsed[j].action
            },
            Err(_) => false,
        },
{
    let ghost ids = parsed@.map_values(|p: ParsedHotkey| p.id);
    let mut seen: HashSet<u32> = HashSet::new();
    let mut j: usize = 0;
    while j < parsed.len()
        invariant
            j <= parsed.len(),
            ids == parsed@.map_values(|p: ParsedHotkey| p.id),
            forall|x: u32| seen@.contains(x) <==> exists|i: int| 0 <= i < j && ids[i] == x,
            forall|k: int| 0 <= k < j ==> !#[trigger] repeats_before(ids, k),
        decreases parsed.len() - j,
    {
        let id = parsed[j].id;
        assert(ids[j as int] == id);
        let fresh = seen.insert(id);
        if !fresh {
            proof {
                let i = choose|i: int| 0 <= i < j && ids[i] == id;
                assert(repeats_before(ids, j as int));
                assert(first_duplicate(ids) matches Some(jj) && jj == j) by {
                    let jj = choose|jj: int|
                        0 <= jj < ids.len() && repeats_before(ids, jj) && forall|k: int|
                            0 <= k < jj ==> !#[trigger] repeats_before(ids, k);
                    if jj < j {
                    } else if jj > j {
                        assert(!repeats_before(ids, j as int));
                    }
                }
            }
            return Err(
                HotkeyRegistrationError::Duplicate {
                    action: parsed[j].action,
                    hotkey: hotkey_label(&parsed[j].hotkey),
                },
            );
        }
        proof {
            assert(!repeats_before(ids, j as int));
            assert forall|x: u32| seen@.contains(x) <==> exists|i: int| 0 <= i < j + 1 && ids[i] == x by {
                if x == id {
                    assert(ids[j as int] == x);
                }
            }
        }
        j = j + 1;
    }
    Ok(())
}

impl HotkeyConfig {
    /// A copy of the configuration.
    pub fn duplicate(&self) -> (r: Self)
        ensures
            r == *self,
    {
        HotkeyConfig {
            open_translator: self.open_translator.clone(),
            translate_selection: self.translate_selection.clone(),
            open_clipboard: self.open_clipboard.clone(),
            record_dictation: self.record_dictation.clone(),
            quit_app: self.quit_app.clone(),
        }
    }
}

/// Creates the system's hotkey manager (`GlobalHotKeyManager::new`); the
/// error is its message. Whether it succeeds depends on the system.
#[verifier::external_body]
fn manager_new() -> (r: Result<GlobalHotKeyManager, String>) {
    GlobalHotKeyManager::new().map_err(|e| e.to_string())
}

/// Registers a shortcut with the system (`GlobalHotKeyManager::register`);
/// the error is its message. Whether it succeeds depends on the system.
#[verifier::external_body]
fn manager_register(manager: &GlobalHotKeyManager, hotkey: &HotKey) -> (r: Result<(), String>) {
    manager.register(*hotkey).map_err(|e| e.to_string())
}

/// Unregisters shortcuts from the system
/// (`GlobalHotKeyManager::unregister_all`); the error is its message.
/// Whether it succeeds depends on the system.
#[verifier::external_body]
fn manager_unregister_all(manager: &GlobalHotKeyManager, hotkeys: &[HotKey]) -> (r: Result<
    (),
    String,
>) {
    manager.unregister_all(hotkeys).map_err(|e| e.to_string())
}

/// Takes the shortcut events that the system has reported so far from
/// `global-hotkey`'s event channel (`GlobalHotKeyEvent::receiver`,
/// drained without waiting), each as its hotkey id and whether it is a
/// press. What is pending depends on the user.
#[verifier::external_body]
fn pending_hotkey_events() -> (r: Vec<(u32, bool)>) {
    GlobalHotKeyEvent::receiver().try_iter().map(|e| (e.id, e.state == HotKeyState::Pressed)).collect()
}

/// `s` ends with `t`.
pub open spec fn ends_with<A>(s: Seq<A>, t: Seq<A>) -> bool {
    t.len() <= s.len() && s.subrange(s.len() - t.len(), s.len() as int) == t
}

/// The action of each registered hotkey, by id (a later registration of
/// the same id replaces an earlier one).
pub open spec fn registered_map(regs: Seq<ParsedHotkey>) -> Map<u32, HotkeyAction>
    decreases regs.len(),
{
    if regs.len() == 0 {
        Map::empty()
    } else {
        registered_map(regs.drop_last()).insert(regs.last().id, regs.last().action)
    }
}

/// The actions of the pressed events among `events` that have a
/// registered hotkey, in order.
pub open spec fn actions_for(map: Map<u32, HotkeyAction>, events: Seq<(u32, bool)>) -> Seq<
    HotkeyAction,
>
    decreases events.len(),
{
    if events.len() == 0 {
        Seq::empty()
    } else {
        let rest = actions_for(map, events.drop_last());
        let (id, pressed) = events.last();
        if pressed && map.contains_key(id) {
            rest.push(map[id])
        } else {
            rest
        }
    }
}

/// The registered system shortcuts of the application.
pub struct HotkeyService {
    manager: GlobalHotKeyManager,
    config: HotkeyConfig,
    registered: Vec<ParsedHotkey>,
    action_by_id: HashMap<u32, HotkeyAction>,
    /// Whether the system refused a shortcut in the last registration.
    refused: Ghost<bool>,
}

impl HotkeyService {
    /// The lookup table agrees with the registered hotkeys.
    pub closed spec fn wf(self) -> bool {
        self.action_by_id@ == registered_map(self.registered@)
    }

    /// The configuration last applied successfully.
    pub closed spec fn config_spec(self) -> HotkeyConfig {
        self.config
    }

    /// The ids of the registered hotkeys, in registration order.
    pub closed spec fn registered_ids(self) -> Seq<u32> {
        self.registered@.map_values(|p: ParsedHotkey| p.id)
    }

    /// The actions of the registered hotkeys, in registration order.
    pub closed spec fn registered_actions(self) -> Seq<HotkeyAction> {
        self.registered@.map_values(|p: ParsedHotkey| p.action)
    }

    /// The action of each registered hotkey id.
    pub closed spec fn actions_by_id(self) -> Map<u32, HotkeyAction> {
        self.action_by_id@
    }

    /// Whether the system refused one of the shortcuts in the last
    /// registration.
    pub closed spec fn last_registration_refused(self) -> bool {
        self.refused@
    }

    /// Creates the system's hotkey manager and registers the shortcuts of
    /// `config`.
    pub fn new(config: &HotkeyConfig) -> (r: Result<Self, HotkeyRegistrationError>)
        ensures
            match r {
                Ok(s) => {
                    &&& s.wf()
                    &&& s.config_spec() == *config
                    &&& s.registered_ids() == parsed_ids(config.texts())
                    &&& s.registered_actions() == all_actions()
                },
                Err(HotkeyRegistrationError::Parse { action, hotkey, .. }) => {
                    &&& first_parse_failure(config.texts()) matches Some(i)
                    &&& action == action_at(i)
                    &&& hotkey@ == config.texts()[i]
                },
                Err(HotkeyRegistrationError::Duplicate { action, .. }) => {
                    &&& all_parse(config.texts())
                    &&& first_duplicate(parsed_ids(config.texts())) matches Some(j)
                    &&& action == action_at(j)
                },
                Err(HotkeyRegistrationError::Register { action, .. }) => {
                    &&& all_parse(config.texts())
                    &&& first_duplicate(parsed_ids(config.texts())) is None
                },
                Err(HotkeyRegistrationError::Manager(_)) => true,
                Err(HotkeyRegistrationError::Unregister(_)) => false,
            },
    {
        let manager = match manager_new() {
            Ok(m) => m,
            Err(message) => {
                return Err(HotkeyRegistrationError::Manager(message));
            },
        };
        let mut service = HotkeyService {
            manager,
            config: config.duplicate(),
            registered: Vec::new(),
            action_by_id: HashMap::new(),
            refused: Ghost(false),
        };
        proof {
            assert(service.action_by_id@ =~= registered_map(service.registered@));
        }
        match service.register(config) {
            Ok(()) => {
                proof {
                    assert(service.registered@ =~= Seq::<ParsedHotkey>::empty() + service.registered@);
                }
                Ok(service)
            },
            Err(e) => Err(e),
        }
    }

    /// Parses and checks the shortcuts of `config`, then registers them one
    /// by one after those already registered. When the system refuses one,
    /// everything registered is unregistered (as far as the system allows)
    /// and that shortcut is reported.
    pub fn register(&mut self, config: &HotkeyConfig) -> (r: Result<(), HotkeyRegistrationError>)
        requires
            old(self).wf(),
        ensures
            final(self).wf(),
            final(self).config_spec() == old(self).config_spec(),
            match r {
                Ok(()) => {
                    &&& final(self).registered_ids() == old(self).registered_ids() + parsed_ids(
                        config.texts(),
                    )
                    &&& final(self).registered_actions() == old(self).registered_actions()
                        + all_actions()
                    &&& !final(self).last_registration_refused()
                },
                Err(HotkeyRegistrationError::Parse { action, hotkey, .. }) => {
                    &&& first_parse_failure(config.texts()) matches Some(i)
                    &&& action == action_at(i)
                    &&& hotkey@ == config.texts()[i]
                    &&& final(self).registered_ids() == old(self).registered_ids()
                    &&& final(self).registered_actions() == old(self).registered_actions()
                    &&& !final(self).last_registration_refused()
                },
                Err(HotkeyRegistrationError::Duplicate { action, .. }) => {
                    &&& all_parse(config.texts())
                    &&& first_duplicate(parsed_ids(config.texts())) matches Some(j)
                    &&& action == action_at(j)
                    &&& final(self).registered_ids() == old(self).registered_ids()
                    &&& final(self).registered_actions() == old(self).registered_actions()
                    &&& !final(self).last_registration_refused()
                },
                Err(HotkeyRegistrationError::Register { action, .. }) => {
                    &&& all_parse(config.texts())
                    &&& first_duplicate(parsed_ids(config.texts())) is None
                    &&& final(self).last_registration_refused()
                    &&& (final(self).registered_ids().len() == 0 || exists|k: int|
                        0 <= k < 5 && final(self).registered_ids() == old(self).registered_ids()
                            + parsed_ids(config.texts()).take(k) && final(self).registered_actions()
                            == old(self).registered_actions() + all_actions().take(k))
                },
                Err(_) => false,
            },
    {
        self.refused = Ghost(false);
        let parsed = parse_hotkeys(config)?;
        let checked = check_duplicates(&parsed);
        proof {
            let ids = parsed@.map_values(|p: ParsedHotkey| p.id);
            assert forall|k: int| 0 <= k < 5 implies ids[k] == parsed_ids(config.texts())[k] by {
                assert(parsed[k].id == parsed_ids(config.texts())[k]);
            }
            assert(ids =~= parsed_ids(config.texts()));
        }
        if let Err(e) = checked {
            return Err(e);
        }
        let ghost old_regs = self.registered@;
        let mut i: usize = 0;
        while i < parsed.len()
            invariant
                i <= parsed.len() == 5,
                forall|k: int| #![trigger parsed[k]] 0 <= k < 5 ==> parsed[k].action == action_at(k)
                    && parsed[k].id == parsed_ids(config.texts())[k],
                self.registered@ == old_regs + parsed@.take(i as int),
                self.action_by_id@ == registered_map(self.registered@),
                self.config == old(self).config,
                old_regs == old(self).registered@,
                all_parse(config.texts()),
                first_duplicate(parsed_ids(config.texts())) is None,
            decreases parsed.len() - i,
        {
            let p = &parsed[i];
            if let Err(message) = manager_register(&self.manager, &p.hotkey) {
                proof {
                    let k = i as int;
                    assert(self.registered_ids() =~= old(self).registered_ids() + parsed_ids(
                        config.texts(),
                    ).take(k)) by {
                        assert forall|j: int| 0 <= j < k implies #[trigger] parsed@.take(k)[j].id
                            == parsed_ids(config.texts()).take(k)[j] by {
                            assert(parsed@.take(k)[j] == parsed[j]);
                        }
                    }
                    assert(self.registered_actions() =~= old(self).registered_actions()
                        + all_actions().take(k)) by {
                        assert forall|j: int| 0 <= j < k implies #[trigger] parsed@.take(k)[j].action
                            == all_actions().take(k)[j] by {
                            assert(parsed@.take(k)[j] == parsed[j]);
                        }
                    }
                }
                let _ = self.unregister_all();
                self.refused = Ghost(true);
                return Err(
                    HotkeyRegistrationError::Register {
                        action: p.action,
                        hotkey: hotkey_label(&p.hotkey),
                        message,
                    },
                );
            }
            self.action_by_id.insert(p.id, p.action);
            self.registered.push(ParsedHotkey { action: p.action, hotkey: p.hotkey, id: p.id });
            proof {
                assert(parsed@.take(i + 1) =~= parsed@.take(i as int).push(parsed@[i as int]));
                assert(self.registered@.drop_last() =~= old_regs + parsed@.take(i as int));
            }
            i = i + 1;
        }
        proof {
            assert(parsed@.take(5) =~= parsed@);
            assert(self.registered@.map_values(|p: ParsedHotkey| p.id) =~= old_regs.map_values(
                |p: ParsedHotkey| p.id,
            ) + parsed_ids(config.texts()));
            assert(self.registered@.map_values(|p: ParsedHotkey| p.action) =~= old_regs.map_values(
                |p: ParsedHotkey| p.action,
            ) + all_actions());
        }
        self.refused = Ghost(false);
        Ok(())
    }

    /// Unregisters every registered shortcut. When the system refuses,
    /// nothing changes and its message is reported.
    pub fn unregister_all(&mut self) -> (r: Result<(), HotkeyRegistrationError>)
        requires
            old(self).wf(),
        ensures
            final(self).wf(),
            final(self).config_spec() == old(self).config_spec(),
            match r {
                Ok(()) => final(self).registered_ids().len() == 0 && final(self).actions_by_id()
                    == Map::<u32, HotkeyAction>::empty(),
                Err(HotkeyRegistrationError::Unregister(_)) => *final(self) == *old(self),
                Err(_) => false,
            },
    {
        let mut hotkeys: Vec<HotKey> = Vec::new();
        let mut i: usize = 0;
        while i < self.registered.len()
            invariant
                i <= self.registered.len(),
                hotkeys.len() == i,
            decreases self.registered.len() - i,
        {
            hotkeys.push(self.registered[i].hotkey);
            i = i + 1;
        }
        if hotkeys.len() > 0 {
            if let Err(message) = manager_unregister_all(&self.manager, hotkeys.as_slice()) {
                return Err(HotkeyRegistrationError::Unregister(message));
            }
        }
        self.registered.clear();
        self.action_by_id.clear();
        proof {
            assert(self.action_by_id@ =~= registered_map(self.registered@));
        }
        Ok(())
    }

    /// Replaces the registered shortcuts with those of `config`. On success
    /// `config` becomes the configuration in force and exactly its
    /// shortcuts are registered. When `config` is refused (it does not
    /// parse, repeats a shortcut, or the system refuses one of its
    /// shortcuts) that error is returned, the previous configuration stays
    /// in force and its shortcuts are registered again, unless the system
    /// refuses one of them. When unregistering the previous shortcuts
    /// fails, nothing changes.
    pub fn reload(&mut self, config: &HotkeyConfig) -> (r: Result<(), HotkeyRegistrationError>)
        requires
            old(self).wf(),
        ensures
            final(self).wf(),
            r is Ok ==> {
                &&& final(self).config_spec() == *config
                &&& final(self).registered_ids() == parsed_ids(config.texts())
                &&& final(self).registered_actions() == all_actions()
            },
            r matches Err(HotkeyRegistrationError::Unregister(_)) ==> *final(self) == *old(self),
            r matches Err(HotkeyRegistrationError::Manager(_)) ==> false,
            r is Err ==> final(self).config_spec() == old(self).config_spec(),
            r matches Err(HotkeyRegistrationError::Parse { action, hotkey, .. }) ==> {
                &&& first_parse_failure(config.texts()) matches Some(i)
                &&& action == action_at(i)
                &&& hotkey@ == config.texts()[i]
            },
            r matches Err(HotkeyRegistrationError::Duplicate { action, .. }) ==> {
                &&& all_parse(config.texts())
                &&& first_duplicate(parsed_ids(config.texts())) matches Some(j)
                &&& action == action_at(j)
            },
            r matches Err(HotkeyRegistrationError::Register { .. }) ==> {
                &&& all_parse(config.texts())
                &&& first_duplicate(parsed_ids(config.texts())) is None
            },
            (r is Err && !(r matches Err(HotkeyRegistrationError::Unregister(_))) && all_parse(
                old(self).config_spec().texts(),
            ) && first_duplicate(parsed_ids(old(self).config_spec().texts())) is None
                && !final(self).last_registration_refused()) ==> ends_with(
                final(self).registered_ids(),
                parsed_ids(old(self).config_spec().texts()),
            ),
            ((r matches Err(HotkeyRegistrationError::Parse { .. })) || (r matches Err(
                HotkeyRegistrationError::Duplicate { .. },
            ))) && all_parse(old(self).config_spec().texts()) && first_duplicate(
                parsed_ids(old(self).config_spec().texts()),
            ) is None && !final(self).last_registration_refused() ==> {
                &&& final(self).registered_ids() == parsed_ids(old(self).config_spec().texts())
                &&& final(self).registered_actions() == all_actions()
            },
    {
        let old_config = self.config.duplicate();
        self.unregister_all()?;
        match self.register(config) {
            Ok(()) => {
                self.config = config.duplicate();
                proof {
                    assert(self.registered_ids() =~= parsed_ids(config.texts()));
                    assert(self.registered_actions() =~= all_actions());
                }
                Ok(())
            },
            Err(err) => {
                let ghost before = self.registered_ids();
                let _ = self.register(&old_config);
                proof {
                    let p = parsed_ids(old_config.texts());
                    if self.registered_ids() == before + p {
                        assert((before + p).subrange(before.len() as int, (before + p).len() as int)
                            =~= p);
                    }
                    if before.len() == 0 {
                        assert(before + p =~= p);
                        assert(Seq::<HotkeyAction>::empty() + all_actions() =~= all_actions());
                    }
                }
                Err(err)
            },
        }
    }

    /// Each event among `events` whose hotkey is registered, as its action
    /// and whether it is a press (otherwise a release), in order.
    pub fn action_events_for(&self, events: &Vec<(u32, bool)>) -> (r: Vec<(HotkeyAction, bool)>)
        requires
            self.wf(),
        ensures
            r@ == action_events(self.actions_by_id(), events@),
    {
        let mut r: Vec<(HotkeyAction, bool)> = Vec::new();
        let mut i: usize = 0;
        while i < events.len()
            invariant
                i <= events.len(),
                self.wf(),
                r@ == action_events(self.actions_by_id(), events@.take(i as int)),
            decreases events.len() - i,
        {
            let (id, pressed) = events[i];
            proof {
                assert(events@.take(i + 1).drop_last() =~= events@.take(i as int));
                assert(events@.take(i + 1).last() == events@[i as int]);
            }
            match self.action_by_id.get(&id) {
                Some(action) => r.push((*action, pressed)),
                None => {},
            }
            i = i + 1;
        }
        proof {
            assert(events@.take(events.len() as int) =~= events@);
        }
        r
    }

    /// The presses and releases of the registered shortcuts since the last
    /// call, each as its action and whether it is a press.
    pub fn poll_action_events(&self) -> (r: Vec<(HotkeyAction, bool)>)
        requires
            self.wf(),
        ensures
            forall|i: int| 0 <= i < r.len() ==> #[trigger] self.actions_by_id().contains_value(r[i].0),
    {
        let events = pending_hotkey_events();
        let r = self.action_events_for(&events);
        proof {
            lemma_action_events_registered(self.actions_by_id(), events@);
        }
        r
    }

    /// The actions of the pressed events among `events` whose hotkey is
    /// registered, in order.
    pub fn actions_for_events(&self, events: &Vec<(u32, bool)>) -> (r: Vec<HotkeyAction>)
        requires
            self.wf(),
        ensures
            r@ == actions_for(self.actions_by_id(), events@),
    {
        let mut r: Vec<HotkeyAction> = Vec::new();
        let mut i: usize = 0;
        while i < events.len()
            invariant
                i <= events.len(),
                self.wf(),
                r@ == actions_for(self.actions_by_id(), events@.take(i as int)),
            decreases events.len() - i,
        {
            let (id, pressed) = events[i];
            proof {
                assert(events@.take(i + 1).drop_last() =~= events@.take(i as int));
                assert(events@.take(i + 1).last() == events@[i as int]);
            }
            if pressed {
                match self.action_by_id.get(&id) {
                    Some(action) => r.push(*action),
                    None => {},
                }
            }
            i = i + 1;
        }
        proof {
            assert(events@.take(events.len() as int) =~= events@);
        }
        r
    }

    /// The actions of the shortcuts pressed since the last call.
    pub fn poll_actions(&self) -> (r: Vec<HotkeyAction>)
        requires
            self.wf(),
        ensures
            forall|i: int| 0 <= i < r.len() ==> #[trigger] self.actions_by_id().contains_value(r[i]),
    {
        let events = pending_hotkey_events();
        let r = self.actions_for_events(&events);
        proof {
            lemma_actions_for_registered(self.actions_by_id(), events@);
        }
        r
    }
}

/// The events among `events` whose hotkey is registered in `map`, each as
/// its action and whether it is a press, in order.
pub open spec fn action_events(map: Map<u32, HotkeyAction>, events: Seq<(u32, bool)>) -> Seq<
    (HotkeyAction, bool),
>
    decreases events.len(),
{
    if events.len() == 0 {
        Seq::empty()
    } else {
        let rest = action_events(map, events.drop_last());
        let (id, pressed) = events.last();
        if map.contains_key(id) {
            rest.push((map[id], pressed))
        } else {
            rest
        }
    }
}

/// The actions of the presses among `events`, in order.
pub open spec fn pressed_actions(events: Seq<(HotkeyAction, bool)>) -> Seq<HotkeyAction>
    decreases events.len(),
{
    if events.len() == 0 {
        Seq::empty()
    } else {
        let rest = pressed_actions(events.drop_last());
        if events.last().1 {
            rest.push(events.last().0)
        } else {
            rest
        }
    }
}

/// The presses among the registered events are exactly the actions that
/// `actions_for` reports: polling presses and releases loses no press.
pub proof fn lemma_presses_of_action_events(map: Map<u32, HotkeyAction>, events: Seq<(u32, bool)>)
    ensures
        pressed_actions(action_events(map, events)) == actions_for(map, events),
    decreases events.len(),
{
    if events.len() > 0 {
        lemma_presses_of_action_events(map, events.drop_last());
        let rest = action_events(map, events.drop_last());
        let (id, pressed) = events.last();
        if map.contains_key(id) {
            assert(rest.push((map[id], pressed)).drop_last() =~= rest);
        }
    }
}

proof fn lemma_action_events_registered(map: Map<u32, HotkeyAction>, events: Seq<(u32, bool)>)
    ensures
        forall|i: int|
            0 <= i < action_events(map, events).len() ==> #[trigger] map.contains_value(
                action_events(map, events)[i].0,
            ),
    decreases events.len(),
{
    if events.len() > 0 {
        lemma_action_events_registered(map, events.drop_last());
        let rest = action_events(map, events.drop_last());
        let (id, pressed) = events.last();
        if map.contains_key(id) {
            assert forall|i: int| 0 <= i < action_events(map, events).len() implies #[trigger] map.contains_value(
                action_events(map, events)[i].0,
            ) by {
                if i == rest.len() {
                    assert(map[id] == action_events(map, events)[i].0);
                } else {
                    assert(action_events(map, events)[i] == rest[i]);
                }
            }
        }
    }
}

/// Every action reported for events is the action of a registered hotkey.
pub proof fn lemma_actions_for_registered(map: Map<u32, HotkeyAction>, events: Seq<(u32, bool)>)
    ensures
        forall|i: int|
            0 <= i < actions_for(map, events).len() ==> #[trigger] map.contains_value(
                actions_for(map, events)[i],
            ),
    decreases events.len(),
{
    if events.len() > 0 {
        lemma_actions_for_registered(map, events.drop_last());
        let rest = actions_for(map, events.drop_last());
        let (id, pressed) = events.last();
        if pressed && map.contains_key(id) {
            assert forall|i: int| 0 <= i < actions_for(map, events).len() implies #[trigger] map.contains_value(
                actions_for(map, events)[i],
            ) by {
                if i == rest.len() {
                    assert(map[id] == actions_for(map, events)[i]);
                } else {
                    assert(actions_for(map, events)[i] == rest[i]);
                }
            }
        }
    }
}

} // verus!
