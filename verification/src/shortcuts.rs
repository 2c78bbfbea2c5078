//! Keyboard shortcuts: the command registry, the context-stacked keymaps that
//! bind triggers to command ids, the user's override layer, and dispatch.

pub mod dispatch;
pub mod effective;
pub mod keymaps;
pub mod laws;
pub mod overrides;
pub mod registry;
