//! The decisions of the background daemon: whether the control panel is
//! shown, when the background services start, what the translator popup
//! shows, when the clipboard history is shown and what is pasted from it,
//! and when the application exits. The host reports each event and
//! performs each command that comes back.
use vstd::prelude::*;

use crate::clipboard::ClipboardUiAction;
use crate::hotkey::HotkeyAction;
use crate::tray::TrayEvent;

verus! {

/// What the host reports to the daemon.
#[derive(Debug, Clone, PartialEq, Eq)]
pub enum DaemonEvent {
    /// A tray menu item was chosen.
    Tray(TrayEvent),
    /// A system shortcut was pressed.
    Hotkey(HotkeyAction),
    /// A system shortcut was released.
    HotkeyReleased(HotkeyAction),
    /// The selection copied for translation, shown while it is translated.
    TranslationStarted(String),
    /// A translation finished; the popup shows its text.
    TranslationReady(String),
    /// The window system asked to close the control panel.
    PanelCloseRequested,
    /// "Hide Control Panel" was chosen in the control panel.
    HidePanel,
    /// "Exit" was chosen in the control panel.
    ExitChosen,
    /// The translator popup was closed.
    TranslatorClosed,
    /// What the clipboard history picker reported for a frame.
    ClipboardPicker(ClipboardUiAction),
}

/// What the daemon asks its host to do, in order.
#[derive(Debug, Clone, PartialEq, Eq)]
pub enum DaemonCommand {
    /// Show the control panel window, restored and focused.
    ShowPanelWindow,
    /// Hide the control panel window.
    HidePanelWindow,
    /// Keep the control panel's window from closing.
    CancelClose,
    /// Start the shortcuts, the clipboard monitor and the selection
    /// translator.
    StartBackgroundServices,
    /// Close every window, which ends the application.
    CloseAllWindows,
    /// Draw the windows again.
    RequestRepaint,
    /// Copy the current selection and translate it.
    TranslateSelection,
    /// Start watching the system clipboard for new texts.
    StartClipboardMonitoring,
    /// Start recording dictation.
    StartDictation,
    /// Stop recording dictation and transcribe what was recorded.
    StopDictation,
    /// Put the text on the system clipboard and paste it into the focused
    /// application.
    PasteText(String),
}

/// The daemon's state as plain values.
pub struct DaemonView {
    pub panel_visible: bool,
    pub services_started: bool,
    pub exit_requested: bool,
    pub translator_visible: bool,
    pub translator_text: Seq<char>,
    pub clipboard_visible: bool,
}

/// The state of the background daemon.
pub struct DaemonState {
    /// The control panel is shown.
    pub panel_visible: bool,
    /// The background services have been started.
    pub services_started: bool,
    /// The application is exiting.
    pub exit_requested: bool,
    /// The translator popup is shown.
    pub translator_visible: bool,
    /// The text of the translator popup.
    pub translator_text: String,
    /// The clipboard history picker is shown.
    pub clipboard_visible: bool,
}

impl View for DaemonState {
    type V = DaemonView;

    open spec fn view(&self) -> DaemonView {
        DaemonView {
            panel_visible: self.panel_visible,
            services_started: self.services_started,
            exit_requested: self.exit_requested,
            translator_visible: self.translator_visible,
            translator_text: self.translator_text@,
            clipboard_visible: self.clipboard_visible,
        }
    }
}

/// Hiding the control panel: the window is hidden and, the first time, the
/// background services start.
pub open spec fn hide_panel(s: DaemonView) -> (DaemonView, Seq<DaemonCommand>) {
    if s.services_started {
        (DaemonView { panel_visible: false, ..s }, seq![DaemonCommand::HidePanelWindow])
    } else {
        (
            DaemonView { panel_visible: false, services_started: true, ..s },
            seq![DaemonCommand::HidePanelWindow, DaemonCommand::StartBackgroundServices],
        )
    }
}

/// Exiting: every window closes.
pub open spec fn exit_app(s: DaemonView) -> (DaemonView, Seq<DaemonCommand>) {
    (DaemonView { exit_requested: true, ..s }, seq![DaemonCommand::CloseAllWindows])
}

/// The state after `e` and the commands that it asks for.
pub open spec fn daemon_step(s: DaemonView, e: DaemonEvent) -> (DaemonView, Seq<DaemonCommand>) {
    match e {
        DaemonEvent::Tray(TrayEvent::ShowPanel) => (
            DaemonView { panel_visible: true, ..s },
            seq![DaemonCommand::ShowPanelWindow],
        ),
        DaemonEvent::Tray(TrayEvent::Exit) => exit_app(s),
        DaemonEvent::Hotkey(HotkeyAction::OpenTranslator) => (
            DaemonView { translator_visible: true, ..s },
            seq![DaemonCommand::RequestRepaint],
        ),
        DaemonEvent::Hotkey(HotkeyAction::TranslateSelection) => (
            s,
            seq![DaemonCommand::TranslateSelection],
        ),
        DaemonEvent::Hotkey(HotkeyAction::OpenClipboard) => (
            DaemonView { clipboard_visible: true, ..s },
            seq![DaemonCommand::StartClipboardMonitoring, DaemonCommand::RequestRepaint],
        ),
        DaemonEvent::Hotkey(HotkeyAction::RecordDictation) => (
            s,
            seq![DaemonCommand::StartDictation],
        ),
        DaemonEvent::HotkeyReleased(HotkeyAction::RecordDictation) => (
            s,
            seq![DaemonCommand::StopDictation],
        ),
        DaemonEvent::HotkeyReleased(_) => (s, seq![]),
        DaemonEvent::Hotkey(HotkeyAction::QuitApp) => exit_app(s),
        DaemonEvent::TranslationStarted(t) => (DaemonView { translator_text: t@, ..s }, seq![]),
        DaemonEvent::TranslationReady(t) => (
            DaemonView { translator_visible: true, translator_text: t@, ..s },
            seq![],
        ),
        DaemonEvent::PanelCloseRequested => if s.exit_requested {
            (s, seq![])
        } else {
            (hide_panel(s).0, hide_panel(s).1.push(DaemonCommand::CancelClose))
        },
        DaemonEvent::HidePanel => hide_panel(s),
        DaemonEvent::ExitChosen => exit_app(s),
        DaemonEvent::TranslatorClosed => (DaemonView { translator_visible: false, ..s }, seq![]),
        DaemonEvent::ClipboardPicker(ClipboardUiAction::Stay) => (s, seq![]),
        DaemonEvent::ClipboardPicker(ClipboardUiAction::Close) => (
            DaemonView { clipboard_visible: false, ..s },
            seq![],
        ),
        DaemonEvent::ClipboardPicker(ClipboardUiAction::Paste(t)) => (
            DaemonView { clipboard_visible: false, ..s },
            seq![DaemonCommand::PasteText(t)],
        ),
    }
}

/// The state after `es`, in order, and all the commands they ask for.
pub open spec fn daemon_run(s: DaemonView, es: Seq<DaemonEvent>) -> (DaemonView, Seq<DaemonCommand>)
    decreases es.len(),
{
    if es.len() == 0 {
        (s, seq![])
    } else {
        let before = daemon_run(s, es.drop_last());
        let after = daemon_step(before.0, es.last());
        (after.0, before.1 + after.1)
    }
}

/// How often `cmds` start the background services.
pub open spec fn start_count(cmds: Seq<DaemonCommand>) -> nat
    decreases cmds.len(),
{
    if cmds.len() == 0 {
        0
    } else {
        start_count(cmds.drop_last()) + if cmds.last() == DaemonCommand::StartBackgroundServices {
            1nat
        } else {
            0nat
        }
    }
}

proof fn lemma_start_count_add(a: Seq<DaemonCommand>, b: Seq<DaemonCommand>)
    ensures
        start_count(a + b) == start_count(a) + start_count(b),
    decreases b.len(),
{
    if b.len() > 0 {
        lemma_start_count_add(a, b.drop_last());
        assert((a + b).drop_last() =~= a + b.drop_last());
        assert((a + b).last() == b.last());
    }
}

/// Closing the control panel's window before the application exits hides
/// the panel and cancels the close, so the daemon keeps running; once the
/// application exits, a close request is let through.
pub proof fn lemma_close_hides_until_exit(s: DaemonView)
    ensures
        !s.exit_requested ==> ({
            let (n, cmds) = daemon_step(s, DaemonEvent::PanelCloseRequested);
            &&& !n.panel_visible
            &&& !n.exit_requested
            &&& cmds.last() == DaemonCommand::CancelClose
            &&& !cmds.contains(DaemonCommand::CloseAllWindows)
        }),
        s.exit_requested ==> daemon_step(s, DaemonEvent::PanelCloseRequested) == (s, Seq::<
            DaemonCommand,
        >::empty()),
{
    if !s.exit_requested {
        let cmds = daemon_step(s, DaemonEvent::PanelCloseRequested).1;
        assert(!cmds.contains(DaemonCommand::CloseAllWindows)) by {
            if cmds.contains(DaemonCommand::CloseAllWindows) {
                let k = choose|k: int| 0 <= k < cmds.len() && cmds[k] == DaemonCommand::CloseAllWindows;
                assert(cmds[k] != DaemonCommand::CloseAllWindows);
            }
        }
    }
}

/// Every window closes exactly on Exit from the tray, Exit from the
/// control panel, or the quit shortcut; the application is then exiting,
/// and once it is exiting, no event takes that back.
pub proof fn lemma_exit_is_final(s: DaemonView, e: DaemonEvent)
    ensures
        daemon_step(s, e).1.contains(DaemonCommand::CloseAllWindows) <==> (
        e == DaemonEvent::Tray(TrayEvent::Exit) || e == DaemonEvent::Hotkey(HotkeyAction::QuitApp)
            || e == DaemonEvent::ExitChosen),
        daemon_step(s, e).1.contains(DaemonCommand::CloseAllWindows) ==> daemon_step(
            s,
            e,
        ).0.exit_requested,
        s.exit_requested ==> daemon_step(s, e).0.exit_requested,
{
    let cmds = daemon_step(s, e).1;
    if e == DaemonEvent::Tray(TrayEvent::Exit) || e == DaemonEvent::Hotkey(HotkeyAction::QuitApp)
        || e == DaemonEvent::ExitChosen {
        assert(cmds[0] == DaemonCommand::CloseAllWindows);
    } else {
        assert forall|k: int| 0 <= k < cmds.len() implies cmds[k] != DaemonCommand::CloseAllWindows by {
        }
    }
}

proof fn lemma_step_start_count(s: DaemonView, e: DaemonEvent)
    ensures
        s.services_started ==> daemon_step(s, e).0.services_started,
        start_count(daemon_step(s, e).1) == if !s.services_started && daemon_step(
            s,
            e,
        ).0.services_started {
            1nat
        } else {
            0nat
        },
{
    let one = seq![DaemonCommand::HidePanelWindow];
    let two = seq![DaemonCommand::HidePanelWindow, DaemonCommand::StartBackgroundServices];
    assert(start_count(Seq::<DaemonCommand>::empty()) == 0);
    assert(one.drop_last() =~= Seq::<DaemonCommand>::empty());
    assert(one.last() == DaemonCommand::HidePanelWindow);
    assert(two.drop_last() =~= one);
    assert(two.last() == DaemonCommand::StartBackgroundServices);
    assert(start_count(one) == 0);
    assert(start_count(two) == 1);
    assert(start_count(one.push(DaemonCommand::CancelClose)) == 0) by {
        assert(one.push(DaemonCommand::CancelClose).drop_last() =~= one);
    }
    assert(start_count(two.push(DaemonCommand::CancelClose)) == 1) by {
        assert(two.push(DaemonCommand::CancelClose).drop_last() =~= two);
    }
    let cmds = daemon_step(s, e).1;
    if !(e == DaemonEvent::HidePanel || e == DaemonEvent::PanelCloseRequested) {
        assert forall|k: int| 0 <= k < cmds.len() implies cmds[k]
            != DaemonCommand::StartBackgroundServices by {}
        lemma_start_count_absent(cmds);
    }
}

proof fn lemma_start_count_absent(cmds: Seq<DaemonCommand>)
    requires
        forall|k: int| 0 <= k < cmds.len() ==> cmds[k] != DaemonCommand::StartBackgroundServices,
    ensures
        start_count(cmds) == 0,
    decreases cmds.len(),
{
    if cmds.len() > 0 {
        lemma_start_count_absent(cmds.drop_last());
        assert(cmds.last() == cmds[cmds.len() - 1]);
    }
}

/// The background services start at most once over any run of events:
/// never when they had already started, and once exactly when the run
/// starts them.
pub proof fn lemma_services_start_once(s: DaemonView, es: Seq<DaemonEvent>)
    ensures
        start_count(daemon_run(s, es).1) + (if s.services_started {
            1nat
        } else {
            0nat
        }) == if daemon_run(s, es).0.services_started {
            1nat
        } else {
            0nat
        },
    decreases es.len(),
{
    if es.len() > 0 {
        lemma_services_start_once(s, es.drop_last());
        let before = daemon_run(s, es.drop_last());
        let after = daemon_step(before.0, es.last());
        lemma_start_count_add(before.1, after.1);
        lemma_step_start_count(before.0, es.last());
    }
}

/// Releasing a shortcut other than the dictation shortcut changes nothing
/// and asks for nothing: only presses act, and only the dictation shortcut
/// is held.
pub proof fn lemma_release_is_inert(s: DaemonView, a: HotkeyAction)
    requires
        a != HotkeyAction::RecordDictation,
    ensures
        daemon_step(s, DaemonEvent::HotkeyReleased(a)) == (s, Seq::<DaemonCommand>::empty()),
{
}

/// The clipboard history, once shown, stays shown until its picker reports
/// that it closed or pasted an entry; pressing the clipboard shortcut shows
/// it and starts the clipboard monitor.
pub proof fn lemma_clipboard_stays_until_picker(s: DaemonView, e: DaemonEvent)
    ensures
        s.clipboard_visible && !daemon_step(s, e).0.clipboard_visible ==> (e
            == DaemonEvent::ClipboardPicker(ClipboardUiAction::Close)
            || e matches DaemonEvent::ClipboardPicker(ClipboardUiAction::Paste(_))),
        e == DaemonEvent::Hotkey(HotkeyAction::OpenClipboard) ==> daemon_step(s, e).0.clipboard_visible
            && daemon_step(s, e).1.contains(DaemonCommand::StartClipboardMonitoring),
        e matches DaemonEvent::ClipboardPicker(ClipboardUiAction::Paste(t)) ==> daemon_step(s, e).1
            == seq![DaemonCommand::PasteText(t)],
{
    if e == DaemonEvent::Hotkey(HotkeyAction::OpenClipboard) {
        assert(daemon_step(s, e).1[0] == DaemonCommand::StartClipboardMonitoring);
    }
}

/// Pressing the dictation shortcut starts dictation and releasing it stops
/// dictation, whatever the daemon's state, and neither changes the state.
pub proof fn lemma_dictation_follows_the_key(s: DaemonView)
    ensures
        daemon_step(s, DaemonEvent::Hotkey(HotkeyAction::RecordDictation)) == (
            s,
            seq![DaemonCommand::StartDictation],
        ),
        daemon_step(s, DaemonEvent::HotkeyReleased(HotkeyAction::RecordDictation)) == (
            s,
            seq![DaemonCommand::StopDictation],
        ),
{
}

impl DaemonState {
    /// The state at start: the control panel is shown, nothing else runs.
    pub fn new() -> (s: Self)
        ensures
            s@ == (DaemonView {
                panel_visible: true,
                services_started: false,
                exit_requested: false,
                translator_visible: false,
                translator_text: Seq::empty(),
                clipboard_visible: false,
            }),
    {
        DaemonState {
            panel_visible: true,
            services_started: false,
            exit_requested: false,
            translator_visible: false,
            translator_text: String::new(),
            clipboard_visible: false,
        }
    }

    fn hide_panel(&mut self) -> (cmds: Vec<DaemonCommand>)
        ensures
            (final(self)@, cmds@) == hide_panel(old(self)@),
    {
        self.panel_visible = false;
        let mut cmds = vec![DaemonCommand::HidePanelWindow];
        if !self.services_started {
            self.services_started = true;
            cmds.push(DaemonCommand::StartBackgroundServices);
        }
        cmds
    }

    fn exit_app(&mut self) -> (cmds: Vec<DaemonCommand>)
        ensures
            (final(self)@, cmds@) == exit_app(old(self)@),
    {
        self.exit_requested = true;
        vec![DaemonCommand::CloseAllWindows]
    }

    /// Takes in `event` and returns the commands for the host, in order.
    pub fn handle(&mut self, event: DaemonEvent) -> (cmds: Vec<DaemonCommand>)
        ensures
            (final(self)@, cmds@) == daemon_step(old(self)@, event),
    {
        match event {
            DaemonEvent::Tray(TrayEvent::ShowPanel) => {
                self.panel_visible = true;
                vec![DaemonCommand::ShowPanelWindow]
            },
            DaemonEvent::Tray(TrayEvent::Exit) => self.exit_app(),
            DaemonEvent::Hotkey(HotkeyAction::OpenTranslator) => {
                self.translator_visible = true;
                vec![DaemonCommand::RequestRepaint]
            },
            DaemonEvent::Hotkey(HotkeyAction::TranslateSelection) => {
                vec![DaemonCommand::TranslateSelection]
            },
            DaemonEvent::Hotkey(HotkeyAction::OpenClipboard) => {
                self.clipboard_visible = true;
                vec![DaemonCommand::StartClipboardMonitoring, DaemonCommand::RequestRepaint]
            },
            DaemonEvent::Hotkey(HotkeyAction::RecordDictation) => {
                vec![DaemonCommand::StartDictation]
            },
            DaemonEvent::HotkeyReleased(HotkeyAction::RecordDictation) => {
                vec![DaemonCommand::StopDictation]
            },
            DaemonEvent::HotkeyReleased(_) => Vec::new(),
            DaemonEvent::Hotkey(HotkeyAction::QuitApp) => self.exit_app(),
            DaemonEvent::TranslationStarted(t) => {
                self.translator_text = t;
                Vec::new()
            },
            DaemonEvent::TranslationReady(t) => {
                self.translator_visible = true;
                self.translator_text = t;
                Vec::new()
            },
            DaemonEvent::PanelCloseRequested => {
                if self.exit_requested {
                    Vec::new()
                } else {
                    let mut cmds = self.hide_panel();
                    cmds.push(DaemonCommand::CancelClose);
                    cmds
                }
            },
            DaemonEvent::HidePanel => self.hide_panel(),
            DaemonEvent::ExitChosen => self.exit_app(),
            DaemonEvent::TranslatorClosed => {
                self.translator_visible = false;
                Vec::new()
            },
            DaemonEvent::ClipboardPicker(ClipboardUiAction::Stay) => Vec::new(),
            DaemonEvent::ClipboardPicker(ClipboardUiAction::Close) => {
                self.clipboard_visible = false;
                Vec::new()
            },
            DaemonEvent::ClipboardPicker(ClipboardUiAction::Paste(t)) => {
                self.clipboard_visible = false;
                vec![DaemonCommand::PasteText(t)]
            },
        }
    }
}

} // verus!
