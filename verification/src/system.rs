//! The alert state shown to the user and the keyboard shortcuts of the shell.

pub mod hotkey;
pub mod tray;

pub use hotkey::{HotkeyAction, HotkeyError, HotkeyManager, Modifier, Shortcut};
pub use tray::{StateChange, TrayError, TrayManager, TrayMenuAction, TrayState, TrayStatus};
