//! Windows: attributes, shadow copies, the clipboard and Explorer.

pub mod clipboard;
pub mod clipboard_daemon;
pub mod explorer_path;
pub mod fs;
pub mod vss;
