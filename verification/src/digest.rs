//! SHA-256 of a byte stream that arrives in pieces.

use vstd::prelude::*;
use crate::text::{hex, hex_of};

verus! {

/// The running SHA-256 of the `sha2` crate.
#[verifier::external_type_specification]
#[verifier::external_body]
pub struct ExSha256(sha2::Sha256);

/// The bytes that a running hash has taken in so far, in order.
pub uninterp spec fn bytes_taken(h: sha2::Sha256) -> Seq<u8>;

/// The SHA-256 of a byte string, as the `sha2` crate computes it.
pub uninterp spec fn sha256(bytes: Seq<u8>) -> Seq<u8>;

/// The number of bytes from which on the length in bits no longer fits the counter
/// of the algorithm.
pub const TOO_MANY_BYTES: u64 = 0x2000_0000_0000_0000;

/// `sha2`: `Sha256::new`. A new hash has taken nothing in.
#[verifier::external_body]
fn sha256_new() -> (r: sha2::Sha256)
    ensures
        bytes_taken(r) == Seq::<u8>::empty(),
{
    <sha2::Sha256 as sha2::Digest>::new()
}

/// `sha2`: `Sha256::update`. The bytes go behind those taken in before.
#[verifier::external_body]
fn sha256_update(h: &mut sha2::Sha256, data: &[u8])
    requires
        bytes_taken(*old(h)).len() + data@.len() < TOO_MANY_BYTES,
    ensures
        bytes_taken(*final(h)) == bytes_taken(*old(h)) + data@,
{
    sha2::Digest::update(h, data)
}

/// `sha2`: `Sha256::finalize`. The result is a function of the bytes taken in alone,
/// however they were cut into pieces, and has thirty-two bytes.
#[verifier::external_body]
fn sha256_finalize(h: sha2::Sha256) -> (r: Vec<u8>)
    requires
        bytes_taken(h).len() < TOO_MANY_BYTES,
    ensures
        r@ == sha256(bytes_taken(h)),
        r@.len() == 32,
{
    sha2::Digest::finalize(h).to_vec()
}

/// A running hash with the number of bytes that it has taken in.
pub struct Hasher {
    inner: sha2::Sha256,
    count: u64,
}

impl View for Hasher {
    type V = Seq<u8>;

    closed spec fn view(&self) -> Seq<u8> {
        bytes_taken(self.inner)
    }
}

impl Hasher {
    #[verifier::type_invariant]
    spec fn counted(self) -> bool {
        &&& self.count == bytes_taken(self.inner).len()
        &&& self.count < TOO_MANY_BYTES
    }

    /// A hash of nothing yet.
    pub fn new() -> (r: Self)
        ensures
            r@ == Seq::<u8>::empty(),
    {
        Hasher { inner: sha256_new(), count: 0 }
    }

    /// Whether the hash can take so many more bytes.
    pub fn has_room(&self, len: usize) -> (r: bool)
        ensures
            r == (self@.len() + len < TOO_MANY_BYTES),
    {
        proof {
            use_type_invariant(self);
        }
        (len as u64) < TOO_MANY_BYTES - self.count
    }

    /// Takes in the next piece.
    pub fn absorb(self, piece: &[u8]) -> (r: Self)
        requires
            self@.len() + piece@.len() < TOO_MANY_BYTES,
        ensures
            r@ == self@ + piece@,
    {
        proof {
            use_type_invariant(&self);
        }
        let count: u64 = self.count + piece.len() as u64;
        let mut inner = self.inner;
        sha256_update(&mut inner, piece);
        Hasher { inner, count }
    }

    /// The hash of all pieces, in lower-case hexadecimal.
    pub fn finish(self) -> (r: String)
        ensures
            r@ == hex(sha256(self@)),
            r@.len() == 64,
    {
        proof {
            use_type_invariant(&self);
        }
        let bytes = sha256_finalize(self.inner);
        hex_of(&bytes)
    }
}

} // verus!
