//! Trinity: the verified core of a desktop assistant for word-selection
//! translation, clipboard history and voice dictation.
use vstd::prelude::*;

pub mod cfg;
pub mod daemon;
pub mod clipboard;
pub mod dictation;
pub mod hotkey;
pub mod mouse;
pub mod panel;
pub mod persistence;
pub mod text;
pub mod translator;
pub mod tray;

verus! {

} // verus!
