//! The verified core of a minimal browser with workspaces: request blocking,
//! what the address bar opens, the workspaces of the window, the user's
//! settings, and the memory manager that suspends and discards idle
//! workspaces to keep the process tree within a memory budget.
pub mod adblock;
pub mod memory;
pub mod process_tree;
pub mod query;
pub mod restore;
pub mod settings;
pub mod text;
pub mod workspaces;
