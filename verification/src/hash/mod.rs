//! Checksums: the `ChecksumAlgorithm` trait, its three implementations and
//! their run-time selection.
//!
//! Every hasher is modelled by the bytes it has absorbed so far; its digest is
//! the digest of those bytes, whatever the chunks in which they arrived.

use vstd::prelude::*;
use vstd::string::*;

pub mod blake3_impl;
pub mod sha2_impl;
pub mod xxhash_impl;

use crate::hash::blake3_impl::{blake3_digest, Blake3Hasher};
use crate::hash::sha2_impl::{sha256_digest, Sha2Hasher};
use crate::hash::xxhash_impl::{xxh64_digest, XxHasher};
use crate::text::{is_lower_hex, lowercase};

verus! {

/// The longest input, in bytes, that every hasher accepts: SHA-256 counts the
/// bits of its input in 64 bits.
pub const MAX_HASHED_BYTES: u64 = 0x1fff_ffff_ffff_ffff;

/// Selects a hash function.
#[derive(Debug, Clone, Copy, PartialEq, Eq, Structural)]
pub enum Algorithm {
    Blake3,
    XxHash,
    Sha2,
}

/// The lower-case hexadecimal digest of `input` under `algorithm`.
pub open spec fn digest(algorithm: Algorithm, input: Seq<u8>) -> Seq<char> {
    match algorithm {
        Algorithm::Blake3 => blake3_digest(input),
        Algorithm::XxHash => xxh64_digest(input),
        Algorithm::Sha2 => sha256_digest(input),
    }
}

/// The number of hexadecimal characters of a digest under `algorithm`.
pub open spec fn digest_len(algorithm: Algorithm) -> nat {
    match algorithm {
        Algorithm::Blake3 => 64,
        Algorithm::XxHash => 16,
        Algorithm::Sha2 => 64,
    }
}

impl Algorithm {
    /// The name under which the algorithm is shown to users.
    pub open spec fn display(self) -> Seq<char> {
        match self {
            Algorithm::Blake3 => "blake3"@,
            Algorithm::XxHash => "xxhash"@,
            Algorithm::Sha2 => "sha2-256"@,
        }
    }

    /// The algorithm that a lower-case name selects, if any.
    pub open spec fn named(name: Seq<char>) -> Option<Algorithm> {
        if name == "blake3"@ {
            Some(Algorithm::Blake3)
        } else if name == "xxhash"@ || name == "xx"@ {
            Some(Algorithm::XxHash)
        } else if name == "sha2"@ || name == "sha256"@ {
            Some(Algorithm::Sha2)
        } else {
            None
        }
    }

    /// The message for a name that selects no algorithm.
    pub open spec fn unknown_message(name: Seq<char>) -> Seq<char> {
        "Algoritmo desconocido: '"@ + name + "'. Usa: blake3, xxhash, sha2"@
    }

    /// The name under which the algorithm is shown to users.
    pub fn to_string(&self) -> (text: String)
        ensures
            text@ == self.display(),
    {
        match self {
            Algorithm::Blake3 => "blake3".to_owned(),
            Algorithm::XxHash => "xxhash".to_owned(),
            Algorithm::Sha2 => "sha2-256".to_owned(),
        }
    }

    /// Selects an algorithm by its lower-case name.
    pub fn from_lowercase(name: &String) -> (selected: Result<Algorithm, String>)
        ensures
            match Algorithm::named(name@) {
                Some(algorithm) => selected == Ok::<Algorithm, String>(algorithm),
                None => selected is Err && selected->Err_0@ == Algorithm::unknown_message(name@),
            },
    {
        if *name == "blake3".to_owned() {
            return Ok(Algorithm::Blake3);
        }
        if *name == "xxhash".to_owned() || *name == "xx".to_owned() {
            return Ok(Algorithm::XxHash);
        }
        if *name == "sha2".to_owned() || *name == "sha256".to_owned() {
            return Ok(Algorithm::Sha2);
        }
        let mut message = "Algoritmo desconocido: '".to_owned();
        message.append(name.as_str());
        message.append("'. Usa: blake3, xxhash, sha2");
        Err(message)
    }

    /// Selects an algorithm by its name, in any case.
    pub fn from_str(s: &str) -> (selected: Result<Algorithm, String>)
        ensures
            match Algorithm::named(lowercase(s@)) {
                Some(algorithm) => selected == Ok::<Algorithm, String>(algorithm),
                None => selected is Err && selected->Err_0@ == Algorithm::unknown_message(
                    lowercase(s@),
                ),
            },
    {
        Algorithm::from_lowercase(&s.to_lowercase())
    }
}

impl std::str::FromStr for Algorithm {
    type Err = String;

    fn from_str(s: &str) -> (selected: Result<Self, Self::Err>)
        ensures
            match Algorithm::named(lowercase(s@)) {
                Some(algorithm) => selected == Ok::<Algorithm, String>(algorithm),
                None => selected is Err && selected->Err_0@ == Algorithm::unknown_message(
                    lowercase(s@),
                ),
            },
    {
        Algorithm::from_str(s)
    }
}

/// An incremental hasher: fed chunk by chunk, so that no file has to fit in
/// memory.
pub trait ChecksumAlgorithm: Send {
    /// The hash function that is being computed.
    spec fn algorithm(&self) -> Algorithm;

    /// Everything absorbed so far.
    spec fn absorbed(&self) -> Seq<u8>;

    /// Absorbs `data`.
    fn update(&mut self, data: &[u8])
        requires
            old(self).absorbed().len() + data@.len() <= MAX_HASHED_BYTES,
        ensures
            final(self).absorbed() == old(self).absorbed() + data@,
            final(self).algorithm() == old(self).algorithm(),
    ;

    /// The digest of everything absorbed, in lower-case hexadecimal.
    fn finalize(self: Box<Self>) -> (hex: String)
        requires
            self.absorbed().len() <= MAX_HASHED_BYTES,
        ensures
            hex@ == digest(self.algorithm(), self.absorbed()),
            hex@.len() == digest_len(self.algorithm()),
            is_lower_hex(hex@),
    ;

    /// The name of the algorithm, for logs.
    fn name(&self) -> (name: &'static str)
        ensures
            name@ == algorithm_name(self.algorithm()),
    ;
}

/// The name under which a hasher of `algorithm` is logged.
pub open spec fn algorithm_name(algorithm: Algorithm) -> Seq<char> {
    match algorithm {
        Algorithm::Blake3 => "blake3"@,
        Algorithm::XxHash => "xxhash64"@,
        Algorithm::Sha2 => "sha2-256"@,
    }
}

/// A hasher behind a trait object.
pub struct DynHasher {
    inner: Box<dyn ChecksumAlgorithm>,
}

impl DynHasher {
    /// The hash function that is being computed.
    pub closed spec fn algorithm(&self) -> Algorithm {
        self.inner.algorithm()
    }

    /// Everything absorbed so far.
    pub closed spec fn absorbed(&self) -> Seq<u8> {
        self.inner.absorbed()
    }

    /// Absorbs `data`.
    pub fn update(&mut self, data: &[u8])
        requires
            old(self).absorbed().len() + data@.len() <= MAX_HASHED_BYTES,
        ensures
            final(self).absorbed() == old(self).absorbed() + data@,
            final(self).algorithm() == old(self).algorithm(),
    {
        self.inner.update(data);
    }

    /// The digest of everything absorbed, in lower-case hexadecimal.
    pub fn finalize(self) -> (hex: String)
        requires
            self.absorbed().len() <= MAX_HASHED_BYTES,
        ensures
            hex@ == digest(self.algorithm(), self.absorbed()),
            hex@.len() == digest_len(self.algorithm()),
            is_lower_hex(hex@),
    {
        self.inner.finalize()
    }

    /// The name of the algorithm, for logs.
    pub fn name(&self) -> (name: &'static str)
        ensures
            name@ == algorithm_name(self.algorithm()),
    {
        self.inner.name()
    }
}

/// A fresh hasher behind a trait object.
pub fn new_hasher(algorithm: Algorithm) -> (hasher: DynHasher)
    ensures
        hasher.algorithm() == algorithm,
        hasher.absorbed() == Seq::<u8>::empty(),
{
    match algorithm {
        Algorithm::Blake3 => {
            let boxed = Box::new(Blake3Hasher::new());
            DynHasher { inner: boxed }
        },
        Algorithm::XxHash => {
            let boxed = Box::new(XxHasher::new());
            DynHasher { inner: boxed }
        },
        Algorithm::Sha2 => {
            let boxed = Box::new(Sha2Hasher::new());
            DynHasher { inner: boxed }
        },
    }
}

/// A hasher chosen at run time without a trait object.
pub enum HasherDispatch {
    Blake3(Blake3Hasher),
    XxHash(XxHasher),
    Sha2(Sha2Hasher),
}

impl HasherDispatch {
    /// The hash function that is being computed.
    pub open spec fn algorithm(&self) -> Algorithm {
        match self {
            HasherDispatch::Blake3(_) => Algorithm::Blake3,
            HasherDispatch::XxHash(_) => Algorithm::XxHash,
            HasherDispatch::Sha2(_) => Algorithm::Sha2,
        }
    }

    /// Everything absorbed so far.
    pub open spec fn absorbed(&self) -> Seq<u8> {
        match self {
            HasherDispatch::Blake3(h) => h.absorbed(),
            HasherDispatch::XxHash(h) => h.absorbed(),
            HasherDispatch::Sha2(h) => h.absorbed(),
        }
    }

    /// A fresh hasher.
    pub fn new(algorithm: Algorithm) -> (hasher: Self)
        ensures
            hasher.algorithm() == algorithm,
            hasher.absorbed() == Seq::<u8>::empty(),
    {
        match algorithm {
            Algorithm::Blake3 => HasherDispatch::Blake3(Blake3Hasher::new()),
            Algorithm::XxHash => HasherDispatch::XxHash(XxHasher::new()),
            Algorithm::Sha2 => HasherDispatch::Sha2(Sha2Hasher::new()),
        }
    }

    /// Absorbs `data`.
    pub fn update(&mut self, data: &[u8])
        requires
            old(self).absorbed().len() + data@.len() <= MAX_HASHED_BYTES,
        ensures
            final(self).absorbed() == old(self).absorbed() + data@,
            final(self).algorithm() == old(self).algorithm(),
    {
        match self {
            HasherDispatch::Blake3(h) => h.update(data),
            HasherDispatch::XxHash(h) => h.update(data),
            HasherDispatch::Sha2(h) => h.update(data),
        }
    }

    /// The digest of everything absorbed, in lower-case hexadecimal.
    pub fn finalize(self) -> (hex: String)
        requires
            self.absorbed().len() <= MAX_HASHED_BYTES,
        ensures
            hex@ == digest(self.algorithm(), self.absorbed()),
            hex@.len() == digest_len(self.algorithm()),
            is_lower_hex(hex@),
    {
        match self {
            HasherDispatch::Blake3(h) => Box::new(h).finalize(),
            HasherDispatch::XxHash(h) => Box::new(h).finalize(),
            HasherDispatch::Sha2(h) => Box::new(h).finalize(),
        }
    }
}

/// What a hasher has absorbed once it was fed `chunks` one after the other.
pub open spec fn absorbed_chunks(chunks: Seq<Seq<u8>>) -> Seq<u8>
    decreases chunks.len(),
{
    if chunks.len() == 0 {
        Seq::empty()
    } else {
        absorbed_chunks(chunks.drop_last()) + chunks.last()
    }
}

/// Feeding an input chunk by chunk gives the digest of the input fed at once,
/// under every algorithm and however the input is cut.
pub proof fn law_incremental_equals_oneshot(algorithm: Algorithm, chunks: Seq<Seq<u8>>)
    ensures
        digest(algorithm, absorbed_chunks(chunks)) == digest(
            algorithm,
            absorbed_chunks(seq![chunks.flatten()]),
        ),
{
    lemma_absorbed_is_concatenation(chunks);
    let whole = seq![chunks.flatten()];
    reveal_with_fuel(absorbed_chunks, 2);
    assert(whole.drop_last() =~= Seq::<Seq<u8>>::empty());
    assert(absorbed_chunks(whole) =~= chunks.flatten());
}

/// A hasher chosen at run time and one behind a trait object give the same digest
/// of the same input, and one that depends on the input alone.
pub proof fn law_dispatch_matches_trait_object(
    direct: HasherDispatch,
    boxed: DynHasher,
    direct_hex: Seq<char>,
    boxed_hex: Seq<char>,
)
    requires
        direct.algorithm() == boxed.algorithm(),
        direct.absorbed() == boxed.absorbed(),
        direct_hex == digest(direct.algorithm(), direct.absorbed()),
        boxed_hex == digest(boxed.algorithm(), boxed.absorbed()),
    ensures
        direct_hex == boxed_hex,
{
}

proof fn lemma_absorbed_is_concatenation(chunks: Seq<Seq<u8>>)
    ensures
        absorbed_chunks(chunks) == chunks.flatten(),
    decreases chunks.len(),
{
    chunks.lemma_flatten_and_flatten_alt_are_equivalent();
    if chunks.len() > 0 {
        lemma_absorbed_is_concatenation(chunks.drop_last());
        chunks.drop_last().lemma_flatten_and_flatten_alt_are_equivalent();
    }
}

/// A hasher gives the digest of what it absorbed under the hash function that it was
/// made for, as long as digests of that function are.
pub proof fn law_digest_is_of_the_selected_function(
    algorithm: Algorithm,
    fresh: HasherDispatch,
    fed: HasherDispatch,
    hex: String,
)
    requires
        call_ensures(HasherDispatch::new, (algorithm,), fresh),
        fed.algorithm() == fresh.algorithm(),
        call_ensures(HasherDispatch::finalize, (fed,), hex),
    ensures
        fresh.absorbed().len() == 0,
        algorithm is Blake3 ==> hex@ == blake3_digest(fed.absorbed()) && hex@.len() == 64,
        algorithm is XxHash ==> hex@ == xxh64_digest(fed.absorbed()) && hex@.len() == 16,
        algorithm is Sha2 ==> hex@ == sha256_digest(fed.absorbed()) && hex@.len() == 64,
        forall|i: int|
            0 <= i < hex@.len() ==> ('0' <= #[trigger] hex@[i] <= '9' || 'a' <= hex@[i] <= 'f'),
{
}

/// So does a hasher behind a trait object.
pub proof fn law_boxed_digest_is_of_the_selected_function(
    algorithm: Algorithm,
    fresh: DynHasher,
    fed: DynHasher,
    hex: String,
)
    requires
        call_ensures(new_hasher, (algorithm,), fresh),
        fed.algorithm() == fresh.algorithm(),
        call_ensures(DynHasher::finalize, (fed,), hex),
    ensures
        fresh.absorbed().len() == 0,
        algorithm is Blake3 ==> hex@ == blake3_digest(fed.absorbed()) && hex@.len() == 64,
        algorithm is XxHash ==> hex@ == xxh64_digest(fed.absorbed()) && hex@.len() == 16,
        algorithm is Sha2 ==> hex@ == sha256_digest(fed.absorbed()) && hex@.len() == 64,
{
}

/// What is fed to a hasher comes after what it had absorbed, and it forgets nothing.
pub proof fn law_hasher_absorbs_in_order(hasher: &mut HasherDispatch, data: &[u8])
    requires
        call_ensures(HasherDispatch::update, (hasher, data), ()),
    ensures
        final(hasher).absorbed().len() == old(hasher).absorbed().len() + data@.len(),
        final(hasher).absorbed().take(old(hasher).absorbed().len() as int) == old(
            hasher,
        ).absorbed(),
        final(hasher).absorbed().skip(old(hasher).absorbed().len() as int) == data@,
        final(hasher).algorithm() == old(hasher).algorithm(),
{
}

/// An algorithm is selected by one of its names, and by no other text.
pub proof fn law_algorithm_has_its_names(name: String, selected: Result<Algorithm, String>)
    requires
        call_ensures(Algorithm::from_lowercase, (&name,), selected),
    ensures
        name@ == "blake3"@ ==> selected == Ok::<Algorithm, String>(Algorithm::Blake3),
        name@ == "xxhash"@ || name@ == "xx"@ ==> selected == Ok::<Algorithm, String>(
            Algorithm::XxHash,
        ),
        name@ == "sha2"@ || name@ == "sha256"@ ==> selected == Ok::<Algorithm, String>(
            Algorithm::Sha2,
        ),
        selected is Ok ==> name@ == "blake3"@ || name@ == "xxhash"@ || name@ == "xx"@ || name@
            == "sha2"@ || name@ == "sha256"@,
        selected is Err ==> selected->Err_0@ == "Algoritmo desconocido: '"@ + name@
            + "'. Usa: blake3, xxhash, sha2"@,
{
    lemma_names_differ();
}

/// The case of a name does not matter: what a name selects is what its small form
/// selects.
pub proof fn law_case_of_the_name_does_not_matter(
    a: &str,
    b: &str,
    first: Result<Algorithm, String>,
    second: Result<Algorithm, String>,
)
    requires
        call_ensures(Algorithm::from_str, (a,), first),
        call_ensures(Algorithm::from_str, (b,), second),
        lowercase(a@) == lowercase(b@),
    ensures
        first is Ok <==> second is Ok,
        first is Ok ==> first->Ok_0 == second->Ok_0,
        first is Ok && first->Ok_0 is Blake3 ==> lowercase(a@) == "blake3"@,
        first is Ok && first->Ok_0 is XxHash ==> lowercase(a@) == "xxhash"@ || lowercase(a@)
            == "xx"@,
        first is Ok && first->Ok_0 is Sha2 ==> lowercase(a@) == "sha2"@ || lowercase(a@)
            == "sha256"@,
{
}

/// Every algorithm is shown under a name of its own.
pub proof fn law_shown_names_differ(a: Algorithm, b: Algorithm, shown_a: String, shown_b: String)
    requires
        call_ensures(Algorithm::to_string, (&a,), shown_a),
        call_ensures(Algorithm::to_string, (&b,), shown_b),
    ensures
        shown_a@ == shown_b@ <==> a == b,
        a is Blake3 ==> shown_a@ == "blake3"@,
        a is XxHash ==> shown_a@ == "xxhash"@,
        a is Sha2 ==> shown_a@ == "sha2-256"@,
{
    lemma_names_differ();
    reveal_strlit("blake3");
    reveal_strlit("xxhash");
    reveal_strlit("sha2-256");
    assert("blake3"@[0] == 'b' && "xxhash"@[0] == 'x' && "sha2-256"@[0] == 's');
}

proof fn lemma_names_differ()
    ensures
        "blake3"@ != "xxhash"@,
        "blake3"@ != "xx"@,
        "blake3"@ != "sha2"@,
        "blake3"@ != "sha256"@,
        "xxhash"@ != "sha2"@,
        "xxhash"@ != "sha256"@,
        "xx"@ != "sha2"@,
        "xx"@ != "sha256"@,
{
    reveal_strlit("blake3");
    reveal_strlit("xxhash");
    reveal_strlit("xx");
    reveal_strlit("sha2");
    reveal_strlit("sha256");
    assert("blake3"@[0] == 'b');
    assert("xxhash"@[0] == 'x' && "xx"@[0] == 'x');
    assert("sha2"@[0] == 's' && "sha256"@[0] == 's');
}

/// A hasher is logged under the name of its hash function.
pub proof fn law_hasher_is_logged_under_its_name(
    algorithm: Algorithm,
    hasher: DynHasher,
    name: &'static str,
)
    requires
        call_ensures(new_hasher, (algorithm,), hasher),
        call_ensures(DynHasher::name, (&hasher,), name),
    ensures
        algorithm is Blake3 ==> name@ == "blake3"@,
        algorithm is XxHash ==> name@ == "xxhash64"@,
        algorithm is Sha2 ==> name@ == "sha2-256"@,
{
}

/// What is fed to a hasher behind a trait object comes after what it had absorbed.
pub proof fn law_boxed_hasher_absorbs_in_order(hasher: &mut DynHasher, data: &[u8])
    requires
        call_ensures(DynHasher::update, (hasher, data), ()),
    ensures
        final(hasher).absorbed().len() == old(hasher).absorbed().len() + data@.len(),
        final(hasher).absorbed().take(old(hasher).absorbed().len() as int) == old(
            hasher,
        ).absorbed(),
        final(hasher).absorbed().skip(old(hasher).absorbed().len() as int) == data@,
        final(hasher).algorithm() == old(hasher).algorithm(),
{
}

} // verus!
