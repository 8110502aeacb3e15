//! Keeps lists of watched paths and of command templates, and decides what
//! runs when a watched path changes.
pub mod expand;
pub mod listfile;
pub mod monitor;
pub mod store;
pub mod template;
