//! A block: the length and content address of one chunk of a payload.

use crate::digest::{address_of, blake3_digest, is_digest_text, Digest};
use crate::encoding::from_hex;
use crate::error::{Error, Failure};
use vstd::prelude::*;

verus! {

/// Describes one chunk of a payload. The bytes themselves live in a store,
/// under `hash`.
#[derive(Clone, Debug)]
pub struct Block {
    /// The number of bytes in the chunk.
    pub length: u64,
    /// The BLAKE3 digest of the chunk, in lowercase hexadecimal.
    pub hash: String,
}

/// A [`Block`] as specifications see it.
pub ghost struct BlockView {
    pub length: u64,
    pub hash: Seq<char>,
}

impl View for Block {
    type V = BlockView;

    open spec fn view(&self) -> BlockView {
        BlockView { length: self.length, hash: self.hash@ }
    }
}

/// The block that describes `data`.
pub open spec fn block_of(data: Seq<u8>) -> BlockView {
    BlockView { length: data.len() as u64, hash: address_of(data) }
}

impl BlockView {
    /// What [`Block::validate`] returns for `data`. The hash may be written in
    /// either case; the length is not looked at.
    pub open spec fn validated(self, data: Seq<u8>) -> Result<(), Failure> {
        if !is_digest_text(self.hash) {
            Err(Failure::Parse)
        } else if from_hex(self.hash) == Some(blake3_digest(data)) {
            Ok(())
        } else {
            Err(Failure::Integrity)
        }
    }
}

impl Block {
    /// A block with the given fields, taken as they are.
    pub fn new(length: u64, hash: String) -> (block: Block)
        ensures
            block.length == length,
            block.hash == hash,
    {
        Block { length, hash }
    }

    /// The block that describes `data`: its length and its content address.
    pub fn from_data(data: &[u8]) -> (block: Block)
        ensures
            block@ == block_of(data@),
            is_digest_text(block@.hash),
    {
        let hash = Digest::of(data).to_hex();
        Block { length: data.len() as u64, hash }
    }

    /// The recorded hash as a digest; [`Error::Parse`] where it is not 64
    /// hexadecimal digits.
    pub fn hash(&self) -> (parsed: Result<Digest, Error>)
        ensures
            match parsed {
                Ok(digest) => is_digest_text(self@.hash) && from_hex(self@.hash) == Some(digest@),
                Err(e) => !is_digest_text(self@.hash) && e@ == Failure::Parse,
            },
    {
        Digest::from_hex(self.hash.as_str())
    }

    /// Makes this block describe `data` instead.
    pub fn update(&mut self, data: &[u8])
        ensures
            final(self)@ == block_of(data@),
    {
        self.length = data.len() as u64;
        self.hash = Digest::of(data).to_hex();
    }

    /// Checks `data` against the recorded hash: [`Error::Parse`] where the hash
    /// cannot be read, [`Error::Integrity`] where the digest of `data` differs
    /// from it.
    pub fn validate(&self, data: &[u8]) -> (checked: Result<(), Error>)
        ensures
            match checked {
                Ok(()) => self@.validated(data@) == Ok::<(), Failure>(()),
                Err(e) => self@.validated(data@) == Err::<(), Failure>(e@),
            },
    {
        let recorded = self.hash()?;
        let actual = Digest::of(data);
        if recorded.same_as(&actual) {
            Ok(())
        } else {
            Err(Error::Integrity)
        }
    }

    /// Whether this block is exactly the one that describes `data`: the same
    /// length and the same lowercase address.
    pub fn describes(&self, data: &[u8]) -> (same: bool)
        ensures
            same == (self@ == block_of(data@)),
    {
        let computed = Block::from_data(data);
        self.length == computed.length && self.hash == computed.hash
    }

    /// A copy of this block.
    pub fn duplicate(&self) -> (copy: Block)
        ensures
            copy@ == self@,
    {
        Block { length: self.length, hash: self.hash.clone() }
    }
}

} // verus!
