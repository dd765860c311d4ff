//! BLAKE3 digests and their hexadecimal form.

use crate::encoding::{all_hex, from_hex, to_hex};
use crate::error::{Error, Failure};
use vstd::prelude::*;

verus! {

/// The 32 bytes that BLAKE3 gives for `data`.
pub uninterp spec fn blake3_digest(data: Seq<u8>) -> Seq<u8>;

/// Whether `text` can be read as a digest: 64 hexadecimal digits.
pub open spec fn is_digest_text(text: Seq<char>) -> bool {
    text.len() == 64 && all_hex(text)
}

/// The content address of `data`: its digest in lowercase hexadecimal.
pub open spec fn address_of(data: Seq<u8>) -> Seq<char> {
    to_hex(blake3_digest(data))
}

/// `blake3::HexError`, told apart from success only.
#[verifier::external_type_specification]
#[verifier::external_body]
pub struct ExHexError(blake3::HexError);

/// `blake3::hash`: the bytes of the hash are the BLAKE3 digest of `data`.
#[verifier::external_body]
fn blake3_hash(data: &[u8]) -> (out: [u8; 32])
    ensures
        out@ == blake3_digest(data@),
{
    *blake3::hash(data).as_bytes()
}

/// `blake3::Hash::to_hex`: two lowercase hexadecimal digits for each of the 32
/// bytes, the high half first.
#[verifier::external_body]
fn blake3_to_hex(bytes: &[u8; 32]) -> (text: String)
    ensures
        text@ == to_hex(bytes@),
{
    blake3::Hash::from_bytes(*bytes).to_hex().as_str().to_owned()
}

/// `blake3::Hash::from_hex`: accepts exactly 64 hexadecimal digits of either
/// case and gives the 32 bytes they spell.
#[verifier::external_body]
fn blake3_from_hex(text: &str) -> (parsed: Result<[u8; 32], blake3::HexError>)
    ensures
        match parsed {
            Ok(bytes) => is_digest_text(text@) && from_hex(text@) == Some(bytes@),
            Err(_) => !is_digest_text(text@),
        },
{
    match blake3::Hash::from_hex(text) {
        Ok(hash) => Ok(*hash.as_bytes()),
        Err(e) => Err(e),
    }
}

/// `blake3::Hash`'s `==`, which takes the same time whatever the bytes: true
/// exactly when the two digests hold the same bytes.
#[verifier::external_body]
fn blake3_eq(a: &[u8; 32], b: &[u8; 32]) -> (same: bool)
    ensures
        same == (a@ == b@),
{
    blake3::Hash::from_bytes(*a) == blake3::Hash::from_bytes(*b)
}

/// A BLAKE3 digest.
#[derive(Clone, Copy, Debug)]
pub struct Digest {
    pub bytes: [u8; 32],
}

impl View for Digest {
    type V = Seq<u8>;

    open spec fn view(&self) -> Seq<u8> {
        self.bytes@
    }
}

impl Digest {
    /// The digest of `data`.
    pub fn of(data: &[u8]) -> (digest: Digest)
        ensures
            digest@ == blake3_digest(data@),
            digest@.len() == 32,
    {
        Digest { bytes: blake3_hash(data) }
    }

    /// Reads a digest from 64 hexadecimal digits; any other text is a
    /// [`Error::Parse`].
    pub fn from_hex(text: &str) -> (parsed: Result<Digest, Error>)
        ensures
            match parsed {
                Ok(digest) => is_digest_text(text@) && from_hex(text@) == Some(digest@),
                Err(e) => !is_digest_text(text@) && e@ == Failure::Parse,
            },
    {
        match blake3_from_hex(text) {
            Ok(bytes) => Ok(Digest { bytes }),
            Err(_) => Err(Error::Parse),
        }
    }

    /// The digest in lowercase hexadecimal.
    pub fn to_hex(&self) -> (text: String)
        ensures
            text@ == to_hex(self@),
            is_digest_text(text@),
    {
        proof {
            crate::encoding::lemma_hex_round_trip(self@);
        }
        blake3_to_hex(&self.bytes)
    }

    /// The 32 bytes of the digest.
    pub fn as_bytes(&self) -> (bytes: &[u8])
        ensures
            bytes@ == self@,
    {
        self.bytes.as_slice()
    }

    /// Whether two digests are the same, decided in constant time.
    pub fn same_as(&self, other: &Digest) -> (same: bool)
        ensures
            same == (self@ == other@),
    {
        blake3_eq(&self.bytes, &other.bytes)
    }
}

} // verus!
