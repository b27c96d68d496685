//! XxHash64 with seed 0: fast, not cryptographic.

use std::hash::Hasher;

use vstd::prelude::*;

use crate::hash::{Algorithm, ChecksumAlgorithm, MAX_HASHED_BYTES};
use crate::text::{format_hex, hex_text};

verus! {

/// The incremental XxHash64 hasher of the `twox-hash` crate.
#[verifier::external_type_specification]
#[verifier::external_body]
pub struct ExXxHash64(twox_hash::XxHash64);

/// What a `twox_hash::XxHash64` holds: its seed and the bytes absorbed so far.
pub uninterp spec fn xxh64_absorbed(hasher: twox_hash::XxHash64) -> (u64, Seq<u8>);

/// What `finish` returns for a `twox_hash::XxHash64` of that seed that has
/// absorbed `input`.
pub uninterp spec fn xxh64_value(seed: u64, input: Seq<u8>) -> u64;

/// The XxHash64 digest of `input` as 16 lower-case hexadecimal digits.
pub open spec fn xxh64_digest(input: Seq<u8>) -> Seq<char> {
    hex_text(xxh64_value(0, input) as nat, 16)
}

/// `twox_hash::XxHash64::with_seed`: a hasher of that seed that has absorbed
/// nothing.
#[verifier::external_body]
fn xxh64_with_seed(seed: u64) -> (hasher: twox_hash::XxHash64)
    ensures
        xxh64_absorbed(hasher) == (seed, Seq::<u8>::empty()),
{
    twox_hash::XxHash64::with_seed(seed)
}

/// `Hasher::write` on a `twox_hash::XxHash64`: appends `data` to what the
/// hasher has absorbed and keeps its seed.
#[verifier::external_body]
fn xxh64_write(hasher: &mut twox_hash::XxHash64, data: &[u8])
    requires
        xxh64_absorbed(*old(hasher)).1.len() + data@.len() <= MAX_HASHED_BYTES,
    ensures
        xxh64_absorbed(*final(hasher)).0 == xxh64_absorbed(*old(hasher)).0,
        xxh64_absorbed(*final(hasher)).1 == xxh64_absorbed(*old(hasher)).1 + data@,
    no_unwind
{
    hasher.write(data);
}

/// `Hasher::finish` on a `twox_hash::XxHash64`: the hash of what was absorbed
/// under the seed.
#[verifier::external_body]
fn xxh64_finish(hasher: &twox_hash::XxHash64) -> (value: u64)
    ensures
        value == xxh64_value(xxh64_absorbed(*hasher).0, xxh64_absorbed(*hasher).1),
{
    hasher.finish()
}

/// Incremental XxHash64 hasher with seed 0.
pub struct XxHasher {
    hasher: twox_hash::XxHash64,
}

impl XxHasher {
    #[verifier::type_invariant]
    spec fn seeded_with_zero(self) -> bool {
        xxh64_absorbed(self.hasher).0 == 0
    }

    pub fn new() -> (hasher: Self)
        ensures
            hasher.absorbed() == Seq::<u8>::empty(),
    {
        XxHasher { hasher: xxh64_with_seed(0) }
    }
}

impl Default for XxHasher {
    fn default() -> (hasher: Self)
        ensures
            hasher.absorbed() == Seq::<u8>::empty(),
    {
        XxHasher::new()
    }
}

impl ChecksumAlgorithm for XxHasher {
    open spec fn algorithm(&self) -> Algorithm {
        Algorithm::XxHash
    }

    closed spec fn absorbed(&self) -> Seq<u8> {
        xxh64_absorbed(self.hasher).1
    }

    fn update(&mut self, data: &[u8]) {
        proof {
            use_type_invariant(&*self);
        }
        xxh64_write(&mut self.hasher, data);
    }

    fn finalize(self: Box<Self>) -> (hex: String) {
        proof {
            use_type_invariant(&*self);
        }
        format_hex(xxh64_finish(&self.hasher))
    }

    fn name(&self) -> (name: &'static str) {
        "xxhash64"
    }
}

} // verus!
