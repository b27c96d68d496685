//! SHA-256, for digests that other tools can check.

use sha2::Digest;
use vstd::prelude::*;

use crate::hash::{Algorithm, ChecksumAlgorithm, MAX_HASHED_BYTES};
use crate::text::is_lower_hex;

verus! {

/// The incremental SHA-256 hasher of the `sha2` crate. Its type is an
/// instance of a generic wrapper, which cannot be declared by itself, so it is
/// held here out of sight.
#[verifier::external_body]
pub struct Sha256State {
    state: sha2::Sha256,
}

/// What a `sha2::Sha256` holds: the bytes absorbed so far.
pub uninterp spec fn sha256_absorbed(hasher: Sha256State) -> Seq<u8>;

/// The lower-case hexadecimal form of what `finalize` returns for a
/// `sha2::Sha256` that has absorbed `input`.
pub uninterp spec fn sha256_digest(input: Seq<u8>) -> Seq<char>;

/// `sha2::Sha256::new`: a hasher that has absorbed nothing.
#[verifier::external_body]
fn sha256_new() -> (hasher: Sha256State)
    ensures
        sha256_absorbed(hasher) == Seq::<u8>::empty(),
{
    Sha256State { state: sha2::Sha256::new() }
}

/// `Digest::update` on a `sha2::Sha256`: appends `data` to what the hasher has
/// absorbed.
#[verifier::external_body]
fn sha256_update(hasher: &mut Sha256State, data: &[u8])
    requires
        sha256_absorbed(*old(hasher)).len() + data@.len() <= MAX_HASHED_BYTES,
    ensures
        sha256_absorbed(*final(hasher)) == sha256_absorbed(*old(hasher)) + data@,
{
    hasher.state.update(data);
}

/// `Digest::finalize` on a `sha2::Sha256`, written in lower-case hexadecimal:
/// the digest of what was absorbed, two characters for each of its 32 bytes.
#[verifier::external_body]
fn sha256_hex(hasher: Sha256State) -> (hex: String)
    requires
        sha256_absorbed(hasher).len() <= MAX_HASHED_BYTES,
    ensures
        hex@ == sha256_digest(sha256_absorbed(hasher)),
        hex@.len() == 64,
        is_lower_hex(hex@),
{
    format!("{:x}", hasher.state.finalize())
}

/// Incremental SHA-256 hasher.
pub struct Sha2Hasher {
    hasher: Sha256State,
}

impl Sha2Hasher {
    pub fn new() -> (hasher: Self)
        ensures
            hasher.absorbed() == Seq::<u8>::empty(),
    {
        Sha2Hasher { hasher: sha256_new() }
    }
}

impl Default for Sha2Hasher {
    fn default() -> (hasher: Self)
        ensures
            hasher.absorbed() == Seq::<u8>::empty(),
    {
        Sha2Hasher::new()
    }
}

impl ChecksumAlgorithm for Sha2Hasher {
    open spec fn algorithm(&self) -> Algorithm {
        Algorithm::Sha2
    }

    closed spec fn absorbed(&self) -> Seq<u8> {
        sha256_absorbed(self.hasher)
    }

    fn update(&mut self, data: &[u8]) {
        sha256_update(&mut self.hasher, data);
    }

    fn finalize(self: Box<Self>) -> (hex: String) {
        sha256_hex(self.hasher)
    }

    fn name(&self) -> (name: &'static str) {
        "sha2-256"
    }
}

} // verus!
