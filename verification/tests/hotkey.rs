use trinity::hotkey::{HotkeyAction, HotkeyConfig, HotkeyRegistrationError};

#[test]
fn default_hotkeys_are_valid() {
    HotkeyConfig::default()
        .validate()
        .expect("default hotkeys should parse");
}

#[test]
fn invalid_hotkey_is_rejected() {
    let config = HotkeyConfig {
        open_translator: "Shift+Ctrl".to_string(),
        ..Default::default()
    };

    assert!(matches!(
        config.validate(),
        Err(HotkeyRegistrationError::Parse {
            action: HotkeyAction::OpenTranslator,
            ..
        })
    ));
}

#[test]
fn duplicate_hotkeys_are_rejected() {
    let config = HotkeyConfig {
        open_translator: "Alt+Q".to_string(),
        translate_selection: "Alt+Q".to_string(),
        quit_app: "CmdOrCtrl+Shift+D".to_string(),
        ..Default::default()
    };

    assert!(matches!(
        config.validate(),
        Err(HotkeyRegistrationError::Duplicate { .. })
    ));
}

#[test]
fn first_unparsable_hotkey_is_reported_with_its_text() {
    let config = HotkeyConfig {
        open_translator: "Alt+Q".to_string(),
        translate_selection: "Ctrl+Nope".to_string(),
        quit_app: "".to_string(),
        ..Default::default()
    };
    match config.validate() {
        Err(HotkeyRegistrationError::Parse { action, hotkey, .. }) => {
            assert_eq!(action, HotkeyAction::TranslateSelection);
            assert_eq!(hotkey, "Ctrl+Nope");
        }
        other => panic!("unexpected result: {other:?}"),
    }
}

#[test]
fn duplicate_is_reported_at_its_second_occurrence() {
    let config = HotkeyConfig {
        open_translator: "Alt+Q".to_string(),
        translate_selection: "CmdOrCtrl+Shift+T".to_string(),
        quit_app: "alt+KeyQ".to_string(),
        ..Default::default()
    };
    match config.validate() {
        Err(HotkeyRegistrationError::Duplicate { action, hotkey }) => {
            assert_eq!(action, HotkeyAction::QuitApp);
            assert_eq!(hotkey, "alt+KeyQ");
        }
        other => panic!("unexpected result: {other:?}"),
    }
}

#[test]
fn entries_pair_each_action_with_its_text() {
    let config = HotkeyConfig::default();
    let entries = config.entries();
    assert_eq!(entries[0], (HotkeyAction::OpenTranslator, "Alt+Q"));
    assert_eq!(entries[1], (HotkeyAction::TranslateSelection, "CmdOrCtrl+Shift+T"));
    assert_eq!(entries[4], (HotkeyAction::QuitApp, "CmdOrCtrl+Shift+D"));
    assert_eq!(config.duplicate(), config);
}

#[test]
fn registration_errors_read_as_messages() {
    let e = HotkeyRegistrationError::Parse {
        action: HotkeyAction::QuitApp,
        hotkey: "X+".to_string(),
        message: "bad".to_string(),
    };
    assert_eq!(e.message(), "invalid hotkey for QuitApp (X+): bad");
    let e = HotkeyRegistrationError::Duplicate {
        action: HotkeyAction::TranslateSelection,
        hotkey: "alt+KeyQ".to_string(),
    };
    assert_eq!(e.message(), "duplicate hotkey for TranslateSelection: alt+KeyQ");
    assert_eq!(
        HotkeyRegistrationError::Unregister("no".to_string()).message(),
        "failed to unregister hotkeys: no"
    );
}

#[test]
fn defaults_include_clipboard_and_dictation_shortcuts() {
    let config = HotkeyConfig::default();
    assert_eq!(config.open_clipboard, "CmdOrCtrl+Shift+V");
    assert_eq!(config.record_dictation, "CmdOrCtrl+Shift+Space");
    let entries = config.entries();
    assert_eq!(entries[2], (HotkeyAction::OpenClipboard, "CmdOrCtrl+Shift+V"));
    assert_eq!(entries[3], (HotkeyAction::RecordDictation, "CmdOrCtrl+Shift+Space"));
    assert_eq!(entries[4].0, HotkeyAction::QuitApp);
    assert!(config.validate().is_ok());
}
