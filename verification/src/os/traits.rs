//! Storage devices and the strategy for a pair of them.

use vstd::prelude::*;

use crate::error::Result;

verus! {

/// A kind of storage device.
#[derive(Debug, Clone, Copy, PartialEq, Eq, Structural)]
pub enum DriveKind {
    /// Solid state.
    Ssd,
    /// Spinning disk.
    Hdd,
    /// Over the network.
    Network,
    /// Not known; treated with caution.
    Unknown,
}

impl DriveKind {
    /// Whether the device gains from parallel access.
    pub fn supports_parallel_io(&self) -> (parallel: bool)
        ensures
            parallel == (*self == DriveKind::Ssd),
    {
        matches!(self, DriveKind::Ssd)
    }

    /// Whether writes are better done one after the other.
    pub fn prefers_sequential(&self) -> (sequential: bool)
        ensures
            sequential == (*self != DriveKind::Ssd),
    {
        matches!(self, DriveKind::Hdd | DriveKind::Network | DriveKind::Unknown)
    }
}

/// The strategy for copying from one device to another.
#[derive(Debug, Clone, Copy, PartialEq, Eq, Structural)]
pub struct CopyStrategy {
    pub source_kind: DriveKind,
    pub dest_kind: DriveKind,
    /// How many small files to copy at once.
    pub recommended_swarm_concurrency: usize,
    /// How many, where copies are verified.
    pub recommended_swarm_concurrency_verify: usize,
    /// The size of a block, in bytes.
    pub recommended_block_size: usize,
}

/// The recommended concurrency, concurrency with verification, and block size.
pub open spec fn recommendation(source: DriveKind, dest: DriveKind) -> (usize, usize, usize) {
    match (source, dest) {
        (DriveKind::Hdd, DriveKind::Hdd) => (1, 1, 8_388_608),
        (DriveKind::Ssd, DriveKind::Hdd) => (4, 4, 8_388_608),
        (DriveKind::Hdd, DriveKind::Ssd) => (1, 1, 4_194_304),
        (DriveKind::Ssd, DriveKind::Ssd) => (128, 32, 4_194_304),
        (_, DriveKind::Network) => (8, 8, 16_777_216),
        (DriveKind::Network, _) => (16, 16, 4_194_304),
        _ => (4, 4, 4_194_304),
    }
}

/// The strategy for a pair of devices.
pub open spec fn strategy_for(source: DriveKind, dest: DriveKind) -> CopyStrategy {
    CopyStrategy {
        source_kind: source,
        dest_kind: dest,
        recommended_swarm_concurrency: recommendation(source, dest).0,
        recommended_swarm_concurrency_verify: recommendation(source, dest).1,
        recommended_block_size: recommendation(source, dest).2,
    }
}

impl CopyStrategy {
    /// The strategy for a pair of devices.
    pub fn compute(source_kind: DriveKind, dest_kind: DriveKind) -> (strategy: Self)
        ensures
            strategy == strategy_for(source_kind, dest_kind),
    {
        let (concurrency, concurrency_verify, block_size): (usize, usize, usize) = match (
            source_kind,
            dest_kind,
        ) {
            (DriveKind::Hdd, DriveKind::Hdd) => (1, 1, 8_388_608),
            (DriveKind::Ssd, DriveKind::Hdd) => (4, 4, 8_388_608),
            (DriveKind::Hdd, DriveKind::Ssd) => (1, 1, 4_194_304),
            (DriveKind::Ssd, DriveKind::Ssd) => (128, 32, 4_194_304),
            (_, DriveKind::Network) => (8, 8, 16_777_216),
            (DriveKind::Network, _) => (16, 16, 4_194_304),
            _ => (4, 4, 4_194_304),
        };
        CopyStrategy {
            source_kind,
            dest_kind,
            recommended_swarm_concurrency: concurrency,
            recommended_swarm_concurrency_verify: concurrency_verify,
            recommended_block_size: block_size,
        }
    }
}

/// What the program needs of a platform.
pub trait OsAdapter: Send + Sync {
    /// The kind of device that holds `path`.
    fn detect_drive_kind(&self, path: &str) -> DriveKind;

    /// The strategy for copying from `source` to `dest`: that of the two
    /// devices that were detected.
    fn compute_strategy(&self, source: &str, dest: &str) -> (strategy: CopyStrategy)
        ensures
            strategy == strategy_for(strategy.source_kind, strategy.dest_kind),
            call_ensures(Self::detect_drive_kind, (self, source), strategy.source_kind),
            call_ensures(Self::detect_drive_kind, (self, dest), strategy.dest_kind),
    {
        let source_kind = self.detect_drive_kind(source);
        let dest_kind = self.detect_drive_kind(dest);
        CopyStrategy::compute(source_kind, dest_kind)
    }

    /// Reserves `size` bytes for the file at `path`.
    fn preallocate(&self, path: &str, size: u64) -> Result<()>;

    /// Gives `dest` the permissions and times of `source`.
    fn copy_metadata(&self, source: &str, dest: &str) -> Result<()>;

    /// The name of the platform, for logs.
    fn platform_name(&self) -> &'static str;
}

/// Every recommended setting is one that a valid configuration may have.
pub proof fn law_recommendations_are_valid(source: DriveKind, dest: DriveKind)
    ensures
        1 <= recommendation(source, dest).1 <= recommendation(source, dest).0
            <= crate::config::MAX_SWARM_CONCURRENCY,
        1 <= recommendation(source, dest).2 <= crate::config::MAX_BLOCK_SIZE,
{
}

/// Only solid state gains from parallel access, and everything else is written one
/// thing after the other.
pub proof fn law_only_solid_state_is_parallel(kind: DriveKind, parallel: bool, sequential: bool)
    requires
        call_ensures(DriveKind::supports_parallel_io, (&kind,), parallel),
        call_ensures(DriveKind::prefers_sequential, (&kind,), sequential),
    ensures
        parallel <==> kind is Ssd,
        sequential == !parallel,
{
}

/// A strategy names the devices that it is for, in their order. A spinning disk is
/// never read by two at once to a disk that is known; only two solid state devices get
/// more than sixteen at once, and there verification takes its toll; blocks are larger
/// the slower the destination.
pub proof fn law_strategy_fits_the_devices(
    source: DriveKind,
    dest: DriveKind,
    strategy: CopyStrategy,
)
    requires
        call_ensures(CopyStrategy::compute, (source, dest), strategy),
    ensures
        strategy.source_kind == source,
        strategy.dest_kind == dest,
        source is Hdd && (dest is Hdd || dest is Ssd) <==> strategy.recommended_swarm_concurrency
            == 1,
        source is Ssd && dest is Ssd <==> strategy.recommended_swarm_concurrency == 128,
        source is Ssd && dest is Ssd <==> strategy.recommended_swarm_concurrency
            > strategy.recommended_swarm_concurrency_verify,
        source is Ssd && dest is Ssd ==> strategy.recommended_swarm_concurrency_verify == 32,
        !(source is Ssd && dest is Ssd) ==> strategy.recommended_swarm_concurrency_verify
            == strategy.recommended_swarm_concurrency,
        dest is Network <==> strategy.recommended_swarm_concurrency == 8,
        source is Network && !(dest is Network) <==> strategy.recommended_swarm_concurrency == 16,
        source is Ssd && dest is Hdd ==> strategy.recommended_swarm_concurrency == 4,
        (source is Unknown && !(dest is Network)) || (dest is Unknown && !(source is Network))
            ==> strategy.recommended_swarm_concurrency == 4,
        dest is Network <==> strategy.recommended_block_size == 16 * 1_048_576,
        dest is Hdd && (source is Hdd || source is Ssd) <==> strategy.recommended_block_size == 8
            * 1_048_576,
        !(dest is Network) && !(dest is Hdd && (source is Hdd || source is Ssd))
            <==> strategy.recommended_block_size == 4 * 1_048_576,
{
}

} // verus!
