//! The TUI shell: the state, the keymap, `update`, and what the screen shows.
//! Drawing to a real terminal happens outside this crate, from the values
//! these modules compute.

pub mod command;
pub mod keymap;
pub mod state;
pub mod update;
pub mod sidebar;
pub mod view;
