//! Content fingerprinting.
//!
//! A fingerprint is a 128-bit digest of a byte sequence, computed by the
//! SipHash 128-bit routine of the `siphasher` crate. The digest is a pure
//! function of the bytes fed, in order, independent of how they are split
//! into chunks; that function is named `sip128_of` here and the streaming
//! wrappers state their behaviour in terms of it.

use vstd::prelude::*;
use vstd::slice::slice_subrange;

verus! {

#[verifier::external_type_specification]
#[verifier::external_body]
pub struct ExSipHasher(siphasher::sip128::SipHasher);

/// The bytes a `SipHasher` has accumulated so far, in the order they were
/// written to it.
pub uninterp spec fn sip_state(h: siphasher::sip128::SipHasher) -> Seq<u8>;

/// The 128-bit digest that the SipHash routine assigns to a byte sequence.
/// It depends on the bytes alone, so equal sequences always get equal
/// digests, on every machine and in every run.
pub uninterp spec fn sip128_of(bytes: Seq<u8>) -> u128;

/// Relies on `siphasher::sip128::SipHasher::new`: a fresh hasher with the
/// all-zero key, holding no bytes yet.
#[verifier::external_body]
fn sip_new() -> (h: siphasher::sip128::SipHasher)
    ensures
        sip_state(h) == Seq::<u8>::empty(),
{
    siphasher::sip128::SipHasher::new()
}

/// Relies on `<SipHasher as core::hash::Hasher>::write`: appends the bytes
/// of `chunk`, in order, to the hasher's accumulated input.
#[verifier::external_body]
fn sip_write(h: &mut siphasher::sip128::SipHasher, chunk: &[u8])
    ensures
        sip_state(*final(h)) == sip_state(*old(h)) + chunk@,
{
    core::hash::Hasher::write(h, chunk);
}

/// Relies on `siphasher::sip128::Hasher128::finish128`: the digest is a
/// function of exactly the bytes accumulated so far, regardless of how they
/// were split across writes.
#[verifier::external_body]
fn sip_finish(h: &siphasher::sip128::SipHasher) -> (r: u128)
    ensures
        r == sip128_of(sip_state(*h)),
{
    siphasher::sip128::Hasher128::finish128(h).as_u128()
}

/// A streaming fingerprint accumulator. Bytes are fed in chunks of any
/// size; the final digest depends only on the concatenation of the chunks.
pub struct ContentHasher {
    inner: siphasher::sip128::SipHasher,
}

/// Number of bytes fed to the hasher per chunk when fingerprinting a whole
/// byte sequence at once.
pub const CHUNK_SIZE: usize = 4096;

impl ContentHasher {
    /// The bytes fed to this hasher so far, in order.
    pub closed spec fn bytes_fed(&self) -> Seq<u8> {
        sip_state(self.inner)
    }

    /// A fresh accumulator with no bytes fed yet.
    pub fn new() -> (h: ContentHasher)
        ensures
            h.bytes_fed() == Seq::<u8>::empty(),
    {
        ContentHasher { inner: sip_new() }
    }

    /// Feed one chunk of bytes.
    pub fn update(&mut self, chunk: &[u8])
        ensures
            final(self).bytes_fed() == old(self).bytes_fed() + chunk@,
    {
        sip_write(&mut self.inner, chunk);
    }

    /// The digest of everything fed so far.
    pub fn finish(&self) -> (r: u128)
        ensures
            r == sip128_of(self.bytes_fed()),
    {
        sip_finish(&self.inner)
    }
}

/// Fingerprint of a byte sequence held in memory, fed to the hasher in
/// chunks of at most `CHUNK_SIZE` bytes.
pub fn fingerprint_bytes(bytes: &[u8]) -> (r: u128)
    ensures
        r == sip128_of(bytes@),
{
    let mut h = ContentHasher::new();
    let mut i: usize = 0;
    while i < bytes.len()
        invariant
            i <= bytes.len(),
            h.bytes_fed() == bytes@.take(i as int),
        decreases bytes.len() - i,
    {
        let end: usize = if bytes.len() - i < CHUNK_SIZE {
            bytes.len()
        } else {
            i + CHUNK_SIZE
        };
        let chunk = slice_subrange(bytes, i, end);
        h.update(chunk);
        proof {
            assert(bytes@.take(i as int) + bytes@.subrange(i as int, end as int)
                =~= bytes@.take(end as int));
        }
        i = end;
    }
    proof {
        assert(bytes@.take(bytes@.len() as int) =~= bytes@);
    }
    h.finish()
}

/// Determinism of the Content Hasher: a fingerprint is a function of the
/// byte sequence alone, so fingerprinting the same bytes twice always
/// yields the same value.
pub proof fn lemma_fingerprint_deterministic(a: Seq<u8>, b: Seq<u8>)
    requires
        a == b,
    ensures
        sip128_of(a) == sip128_of(b),
{
}

} // verus!
