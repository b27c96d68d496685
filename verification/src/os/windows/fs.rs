//! Windows file attributes.

use vstd::prelude::*;

verus! {

/// The attributes that a copy takes over: read-only, hidden, system, archive
/// and normal.
pub const COPY_ATTRS: u32 = 0xa7;

/// A Windows system.
pub struct WindowsAdapter;

impl WindowsAdapter {
    pub fn new() -> (adapter: Self)
        ensures
            adapter == WindowsAdapter,
    {
        WindowsAdapter
    }

    /// The attributes to set on the copy of a file with the given ones; `None`
    /// where there are none to set.
    pub fn attributes_to_set(&self, source_attributes: u32) -> (attributes: Option<u32>)
        ensures
            attributes == if source_attributes & COPY_ATTRS != 0 {
                Some(source_attributes & COPY_ATTRS)
            } else {
                None
            },
    {
        let attributes: u32 = source_attributes & COPY_ATTRS;
        if attributes != 0 {
            Some(attributes)
        } else {
            None
        }
    }

    /// The name of the platform, for logs.
    pub fn platform_name(&self) -> (name: &'static str)
        ensures
            name@ == "windows"@,
    {
        "windows"
    }
}

impl Default for WindowsAdapter {
    fn default() -> (adapter: Self)
        ensures
            adapter == WindowsAdapter,
    {
        WindowsAdapter::new()
    }
}

/// A copy gets the attributes read-only, hidden, system, archive and normal of the
/// source, each as it is there, and no other attribute; where none of them is set, there
/// is nothing to set.
pub proof fn law_attributes_are_taken_over(
    adapter: WindowsAdapter,
    source: u32,
    attributes: Option<u32>,
)
    requires
        call_ensures(WindowsAdapter::attributes_to_set, (&adapter, source), attributes),
    ensures
        attributes is None <==> source & 0x01 == 0 && source & 0x02 == 0 && source & 0x04 == 0
            && source & 0x20 == 0 && source & 0x80 == 0,
        attributes is Some ==> {
            let set = attributes->0;
            &&& set & 0x01 == source & 0x01
            &&& set & 0x02 == source & 0x02
            &&& set & 0x04 == source & 0x04
            &&& set & 0x20 == source & 0x20
            &&& set & 0x80 == source & 0x80
            &&& set & 0xffff_ff58 == 0
        },
{
    let set: u32 = source & 0xa7;
    assert(set == source & COPY_ATTRS);
    assert(source & 0xa7 == 0 <==> source & 0x01 == 0 && source & 0x02 == 0 && source & 0x04 == 0
        && source & 0x20 == 0 && source & 0x80 == 0) by (bit_vector);
    assert((source & 0xa7) & 0x01 == source & 0x01 && (source & 0xa7) & 0x02 == source & 0x02 && (
    source & 0xa7) & 0x04 == source & 0x04 && (source & 0xa7) & 0x20 == source & 0x20 && (source
        & 0xa7) & 0x80 == source & 0x80 && (source & 0xa7) & 0xffff_ff58 == 0) by (bit_vector);
}

} // verus!
