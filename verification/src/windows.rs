//! The floating windows: preferences with the keymap editor, the profile
//! editor, the palettes and the patch dialogs.

pub mod add_menu;
pub mod cheat_sheet;
pub mod operator_search;
pub mod patch_dialog;
pub mod preferences;
pub mod profile_editor;
pub mod quick_select;
pub mod ranking;
