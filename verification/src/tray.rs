//! Events of the system tray menu.
use vstd::prelude::*;

verus! {

/// What the tray menu asks for.
#[derive(Debug, Clone, Copy, PartialEq, Eq, Structural)]
pub enum TrayEvent {
    ShowPanel,
    Exit,
}

/// The command id of the "Show Control Panel" menu item.
pub const ID_SHOW_PANEL: u16 = 1001;

/// The command id of the "Exit" menu item.
pub const ID_EXIT: u16 = 1002;

/// The low 16 bits of a message parameter (the menu command id of a
/// `WM_COMMAND`).
pub fn low_word(dw: u32) -> (r: u16)
    ensures
        r == dw % 65536,
{
    (dw % 65536) as u16
}

/// The tray event of a menu command whose parameter is `param`: the item
/// is named by the parameter's low 16 bits; other commands are not the
/// tray's.
pub fn tray_event_for_command(param: u32) -> (r: Option<TrayEvent>)
    ensures
        r == (if param % 65536 == ID_SHOW_PANEL {
            Some(TrayEvent::ShowPanel)
        } else if param % 65536 == ID_EXIT {
            Some(TrayEvent::Exit)
        } else {
            None::<TrayEvent>
        }),
{
    let id = low_word(param);
    if id == ID_SHOW_PANEL {
        Some(TrayEvent::ShowPanel)
    } else if id == ID_EXIT {
        Some(TrayEvent::Exit)
    } else {
        None
    }
}

} // verus!
