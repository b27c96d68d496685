//! BLAKE3, the default hasher.

use vstd::prelude::*;

use crate::hash::{Algorithm, ChecksumAlgorithm, MAX_HASHED_BYTES};
use crate::text::is_lower_hex;

verus! {

/// The incremental hasher of the `blake3` crate.
#[verifier::external_type_specification]
#[verifier::external_body]
pub struct ExBlake3Hasher(blake3::Hasher);

/// What a `blake3::Hasher` holds: the bytes absorbed so far by a hasher of the
/// plain (unkeyed) hash function, `None` for a hasher of any other mode.
pub uninterp spec fn blake3_absorbed(hasher: blake3::Hasher) -> Option<Seq<u8>>;

/// What `blake3::Hasher::finalize` followed by `to_hex` returns for a plain
/// hasher that has absorbed `input`.
pub uninterp spec fn blake3_digest(input: Seq<u8>) -> Seq<char>;

/// `blake3::Hasher::new`: a plain hasher that has absorbed nothing.
#[verifier::external_body]
fn blake3_new() -> (hasher: blake3::Hasher)
    ensures
        blake3_absorbed(hasher) == Some(Seq::<u8>::empty()),
{
    blake3::Hasher::new()
}

/// `blake3::Hasher::update`: appends `data` to what the hasher has absorbed.
#[verifier::external_body]
fn blake3_update(hasher: &mut blake3::Hasher, data: &[u8])
    requires
        blake3_absorbed(*old(hasher)) is Some,
        blake3_absorbed(*old(hasher))->0.len() + data@.len() <= MAX_HASHED_BYTES,
    ensures
        blake3_absorbed(*final(hasher)) == Some(blake3_absorbed(*old(hasher))->0 + data@),
    no_unwind
{
    hasher.update(data);
}

/// `blake3::Hasher::finalize` and `blake3::Hash::to_hex`: the digest of what
/// was absorbed, as 64 lower-case hexadecimal characters.
#[verifier::external_body]
fn blake3_hex(hasher: &blake3::Hasher) -> (hex: String)
    requires
        blake3_absorbed(*hasher) is Some,
    ensures
        hex@ == blake3_digest(blake3_absorbed(*hasher)->0),
        hex@.len() == 64,
        is_lower_hex(hex@),
{
    hasher.finalize().to_hex().to_string()
}

/// Incremental BLAKE3 hasher.
pub struct Blake3Hasher {
    hasher: blake3::Hasher,
}

impl Blake3Hasher {
    #[verifier::type_invariant]
    spec fn plain(self) -> bool {
        blake3_absorbed(self.hasher) is Some
    }

    pub fn new() -> (hasher: Self)
        ensures
            hasher.absorbed() == Seq::<u8>::empty(),
    {
        Blake3Hasher { hasher: blake3_new() }
    }
}

impl Default for Blake3Hasher {
    fn default() -> (hasher: Self)
        ensures
            hasher.absorbed() == Seq::<u8>::empty(),
    {
        Blake3Hasher::new()
    }
}

impl ChecksumAlgorithm for Blake3Hasher {
    open spec fn algorithm(&self) -> Algorithm {
        Algorithm::Blake3
    }

    closed spec fn absorbed(&self) -> Seq<u8> {
        blake3_absorbed(self.hasher)->0
    }

    fn update(&mut self, data: &[u8]) {
        proof {
            use_type_invariant(&*self);
        }
        blake3_update(&mut self.hasher, data);
    }

    fn finalize(self: Box<Self>) -> (hex: String) {
        proof {
            use_type_invariant(&*self);
        }
        blake3_hex(&self.hasher)
    }

    fn name(&self) -> (name: &'static str) {
        "blake3"
    }
}

} // verus!
