//! Unix systems.

use vstd::prelude::*;

verus! {

/// A Unix system.
pub struct UnixAdapter;

impl UnixAdapter {
    pub fn new() -> (adapter: Self)
        ensures
            adapter == UnixAdapter,
    {
        UnixAdapter
    }

    /// Whether there is anything to reserve for a file of this size.
    pub fn reserves(&self, size: u64) -> (reserve: bool)
        ensures
            reserve == (size != 0),
    {
        size != 0
    }

    /// The name of the platform, for logs.
    pub fn platform_name(&self) -> (name: &'static str)
        ensures
            name@ == "unix"@,
    {
        "unix"
    }
}

impl Default for UnixAdapter {
    fn default() -> (adapter: Self)
        ensures
            adapter == UnixAdapter,
    {
        UnixAdapter::new()
    }
}

/// Space is reserved for every file but an empty one.
pub proof fn law_only_an_empty_file_needs_no_space(adapter: UnixAdapter, size: u64, reserve: bool)
    requires
        call_ensures(UnixAdapter::reserves, (&adapter, size), reserve),
    ensures
        size > 0 <==> reserve,
{
}

} // verus!
