//! What depends on the operating system: storage devices, file attributes, the
//! Windows clipboard.

pub mod detect;
pub mod traits;
pub mod unix;
pub mod windows;
