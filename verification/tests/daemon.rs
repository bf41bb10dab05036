use trinity::clipboard::ClipboardUiAction;
use trinity::daemon::{DaemonCommand, DaemonEvent, DaemonState};
use trinity::hotkey::HotkeyAction;
use trinity::tray::TrayEvent;

#[test]
fn daemon_starts_with_the_panel_shown_and_nothing_running() {
    let state = DaemonState::new();
    assert!(state.panel_visible);
    assert!(!state.services_started);
    assert!(!state.exit_requested);
    assert!(!state.translator_visible);
    assert_eq!(state.translator_text, "");
}

#[test]
fn hiding_the_panel_starts_background_services_once() {
    let mut state = DaemonState::new();
    assert_eq!(
        state.handle(DaemonEvent::HidePanel),
        vec![DaemonCommand::HidePanelWindow, DaemonCommand::StartBackgroundServices]
    );
    assert!(!state.panel_visible);
    assert!(state.services_started);

    assert_eq!(
        state.handle(DaemonEvent::Tray(TrayEvent::ShowPanel)),
        vec![DaemonCommand::ShowPanelWindow]
    );
    assert!(state.panel_visible);

    assert_eq!(
        state.handle(DaemonEvent::HidePanel),
        vec![DaemonCommand::HidePanelWindow]
    );
}

#[test]
fn closing_the_panel_hides_it_until_exit() {
    let mut state = DaemonState::new();
    assert_eq!(
        state.handle(DaemonEvent::PanelCloseRequested),
        vec![
            DaemonCommand::HidePanelWindow,
            DaemonCommand::StartBackgroundServices,
            DaemonCommand::CancelClose
        ]
    );
    assert!(!state.panel_visible);
    assert!(!state.exit_requested);

    assert_eq!(
        state.handle(DaemonEvent::Tray(TrayEvent::Exit)),
        vec![DaemonCommand::CloseAllWindows]
    );
    assert!(state.exit_requested);
    assert!(state.handle(DaemonEvent::PanelCloseRequested).is_empty());
}

#[test]
fn shortcuts_open_translate_and_quit() {
    let mut state = DaemonState::new();
    assert_eq!(
        state.handle(DaemonEvent::Hotkey(HotkeyAction::OpenTranslator)),
        vec![DaemonCommand::RequestRepaint]
    );
    assert!(state.translator_visible);
    assert_eq!(
        state.handle(DaemonEvent::Hotkey(HotkeyAction::TranslateSelection)),
        vec![DaemonCommand::TranslateSelection]
    );
    assert_eq!(
        state.handle(DaemonEvent::Hotkey(HotkeyAction::QuitApp)),
        vec![DaemonCommand::CloseAllWindows]
    );
    assert!(state.exit_requested);
}

#[test]
fn translation_text_is_shown_in_the_popup() {
    let mut state = DaemonState::new();
    assert!(state
        .handle(DaemonEvent::TranslationStarted("hello".to_string()))
        .is_empty());
    assert_eq!(state.translator_text, "hello");
    assert!(!state.translator_visible);
    assert!(state
        .handle(DaemonEvent::TranslationReady("你好".to_string()))
        .is_empty());
    assert_eq!(state.translator_text, "你好");
    assert!(state.translator_visible);
    assert!(state.handle(DaemonEvent::TranslatorClosed).is_empty());
    assert!(!state.translator_visible);
    assert_eq!(state.translator_text, "你好");
}

#[test]
fn clipboard_shortcut_shows_history_and_paste_closes_it() {
    let mut state = DaemonState::new();
    assert_eq!(
        state.handle(DaemonEvent::Hotkey(HotkeyAction::OpenClipboard)),
        vec![DaemonCommand::StartClipboardMonitoring, DaemonCommand::RequestRepaint]
    );
    assert!(state.clipboard_visible);
    assert!(state
        .handle(DaemonEvent::ClipboardPicker(ClipboardUiAction::Stay))
        .is_empty());
    assert!(state.clipboard_visible);
    assert_eq!(
        state.handle(DaemonEvent::ClipboardPicker(ClipboardUiAction::Paste("x".to_string()))),
        vec![DaemonCommand::PasteText("x".to_string())]
    );
    assert!(!state.clipboard_visible);
    state.handle(DaemonEvent::Hotkey(HotkeyAction::OpenClipboard));
    assert!(state
        .handle(DaemonEvent::ClipboardPicker(ClipboardUiAction::Close))
        .is_empty());
    assert!(!state.clipboard_visible);
}

#[test]
fn holding_the_dictation_shortcut_records_until_release() {
    let mut state = DaemonState::new();
    assert_eq!(
        state.handle(DaemonEvent::Hotkey(HotkeyAction::RecordDictation)),
        vec![DaemonCommand::StartDictation]
    );
    assert_eq!(
        state.handle(DaemonEvent::HotkeyReleased(HotkeyAction::RecordDictation)),
        vec![DaemonCommand::StopDictation]
    );
    assert!(state
        .handle(DaemonEvent::HotkeyReleased(HotkeyAction::OpenTranslator))
        .is_empty());
}
