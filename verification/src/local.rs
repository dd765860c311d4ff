//! The layout of a store in a directory tree, and what such a store decides
//! about the bytes that it reads and writes.

use crate::block::{block_of, Block};
use crate::converter::Converter;
use crate::error::{Error, Failure};
use crate::file::File;
use crate::storage::check_stored;
use vstd::prelude::*;
use vstd::string::StringExecFns;

verus! {

/// A store below one directory: manifests in one subdirectory, each in a file
/// named by the manifest's hash and written in the converter's format, and
/// block bytes in another, each in a file named by the block's hash.
///
/// This type holds the layout and the decisions. Reading and writing the files
/// is left to the caller.
pub struct FileSystemStorage<C: Converter> {
    /// The directory of the store.
    pub root_dir: String,
    /// The name, below `root_dir`, of the directory of manifests.
    pub file_dir: String,
    /// The name, below `root_dir`, of the directory of block bytes.
    pub block_dir: String,
    /// The format in which manifests are written.
    pub converter: C,
}

impl<C: Converter> FileSystemStorage<C> {
    /// The store below `root_dir`, with manifests in `files` and block bytes
    /// in `blocks`.
    pub fn new(root_dir: String, converter: C) -> (storage: Self)
        ensures
            storage.root_dir == root_dir,
            storage.file_dir@ == "files"@,
            storage.block_dir@ == "blocks"@,
            storage.converter == converter,
    {
        FileSystemStorage {
            root_dir,
            file_dir: String::from_str("files"),
            block_dir: String::from_str("blocks"),
            converter,
        }
    }

    /// The manifest in what was read from the file of a manifest: nothing
    /// where there was no file, and the converter's error where the bytes
    /// hold no manifest.
    pub fn decode_file(&self, held: Option<Vec<u8>>) -> (found: Result<Option<File>, Error>)
        ensures
            match held {
                None => found matches Ok(None),
                Some(bytes) => match self.converter.decoded_file(bytes@) {
                    Some(manifest) => found matches Ok(Some(file)) && file@ == manifest,
                    None => found is Err,
                },
            },
    {
        match held {
            None => Ok(None),
            Some(bytes) => {
                let file = self.converter.deserialize_file(bytes.as_slice())?;
                Ok(Some(file))
            },
        }
    }

    /// The bytes to write to the file of `file`: the manifest in the
    /// converter's format, which the converter reads back as `file`, and the
    /// converter's error where the format cannot write the manifest.
    pub fn encode_file(&self, file: &File) -> (written: Result<Vec<u8>, Error>)
        ensures
            match written {
                Ok(data) => {
                    &&& self.converter.encoded_file(file@) == Some(data@)
                    &&& self.converter.decoded_file(data@) == Some(file@)
                },
                Err(_) => self.converter.encoded_file(file@) is None,
            },
    {
        self.converter.serialize_file(file)
    }

    /// The bytes of `block` in what was read from the file of the block:
    /// nothing where there was no file, and [`Error::Integrity`] where the
    /// length or the digest of the bytes is not the one that the block records.
    pub fn decode_block(&self, block: &Block, held: Option<Vec<u8>>) -> (found: Result<
        Option<Vec<u8>>,
        Error,
    >)
        ensures
            match held {
                None => found matches Ok(None),
                Some(bytes) => if block@ == block_of(bytes@) {
                    found matches Ok(Some(data)) && data@ == bytes@
                } else {
                    found matches Err(e) && e@ == Failure::Integrity
                },
            },
    {
        check_stored(block, held)
    }
}

} // verus!
