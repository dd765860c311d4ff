//! Byte formats for blocks and manifests.

use crate::block::{Block, BlockView};
use crate::error::Error;
use crate::file::{File, FileView};
use vstd::prelude::*;

verus! {

/// Encoded bytes, as specifications see them.
pub type Encoded = Seq<u8>;

/// A byte format for blocks and manifests.
///
/// A format writes a value in one way, and reads back what it wrote: the same
/// fields, the blocks of a manifest in the same order. What it cannot write
/// or read is an error, never another value.
pub trait Converter: Send + Sync {
    /// The bytes of `block` in this format, if the format can write it.
    spec fn encoded_block(&self, block: BlockView) -> Option<Encoded>;

    /// The bytes of `file` in this format, if the format can write it.
    spec fn encoded_file(&self, file: FileView) -> Option<Encoded>;

    /// The block that `data` encodes in this format, if it encodes one.
    spec fn decoded_block(&self, data: Encoded) -> Option<BlockView>;

    /// The manifest that `data` encodes in this format, if it encodes one.
    spec fn decoded_file(&self, data: Encoded) -> Option<FileView>;

    /// The bytes of `block`.
    fn serialize_block(&self, block: &Block) -> (written: Result<Vec<u8>, Error>)
        ensures
            match written {
                Ok(data) => {
                    &&& self.encoded_block(block@) == Some(data@)
                    &&& self.decoded_block(data@) == Some(block@)
                },
                Err(_) => self.encoded_block(block@) is None,
            },
    ;

    /// The block that `data` holds.
    fn deserialize_block(&self, data: &[u8]) -> (read: Result<Block, Error>)
        ensures
            match read {
                Ok(block) => self.decoded_block(data@) == Some(block@),
                Err(_) => self.decoded_block(data@) is None,
            },
    ;

    /// The bytes of `file`.
    fn serialize_file(&self, file: &File) -> (written: Result<Vec<u8>, Error>)
        ensures
            match written {
                Ok(data) => {
                    &&& self.encoded_file(file@) == Some(data@)
                    &&& self.decoded_file(data@) == Some(file@)
                },
                Err(_) => self.encoded_file(file@) is None,
            },
    ;

    /// The manifest that `data` holds.
    fn deserialize_file(&self, data: &[u8]) -> (read: Result<File, Error>)
        ensures
            match read {
                Ok(file) => self.decoded_file(data@) == Some(file@),
                Err(_) => self.decoded_file(data@) is None,
            },
    ;
}

} // verus!
