//! What the engine needs of the operating system.

use vstd::prelude::*;

use crate::error::Result;

verus! {

/// The operations of the operating system that the engine uses.
pub trait OsOps: Send + Sync {
    /// Reserves `size` bytes for the file at `path`. Where the file system has
    /// no such operation, nothing is done.
    fn preallocate(&self, path: &str, size: u64) -> Result<()>;

    /// Gives `dest` the permissions, times and attributes of `source`. To be
    /// called once `dest` has its final name.
    fn copy_metadata(&self, source: &str, dest: &str) -> Result<()>;
}

/// Does nothing, successfully.
pub struct NoOpOsOps;

impl OsOps for NoOpOsOps {
    fn preallocate(&self, _path: &str, _size: u64) -> (done: Result<()>)
        ensures
            done is Ok,
    {
        Ok(())
    }

    fn copy_metadata(&self, _source: &str, _dest: &str) -> (done: Result<()>)
        ensures
            done is Ok,
    {
        Ok(())
    }
}

} // verus!
