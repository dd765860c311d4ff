//! Stores that hold block bytes and manifests by content address.

use crate::block::{block_of, Block, BlockView};
use crate::digest::address_of;
use crate::error::{Error, Failure};
use crate::file::{File, FileView};
use vstd::hash_map::StringHashMap;
use vstd::prelude::*;
use vstd::slice::slice_to_vec;

verus! {

/// What a store holds of blocks: bytes by block hash.
pub type BlockMap = Map<Seq<char>, Seq<u8>>;

/// What a store holds of manifests: a manifest by file hash.
pub type FileMap = Map<Seq<char>, FileView>;

/// What reading `block` from a store that holds `blocks` gives: nothing where
/// the hash is absent, the bytes where they are the ones that the block
/// describes, and [`Failure::Integrity`] where other bytes stand under the hash.
pub open spec fn fetched(blocks: BlockMap, block: BlockView) -> Result<Option<Seq<u8>>, Failure> {
    if !blocks.contains_key(block.hash) {
        Ok(None)
    } else if block_of(blocks[block.hash]) == block {
        Ok(Some(blocks[block.hash]))
    } else {
        Err(Failure::Integrity)
    }
}

/// What a store hands out for `block` once it has looked under the block's
/// hash and found `held` there: the bytes where the block describes them,
/// [`Error::Integrity`] where it does not, and nothing where nothing was found.
pub fn check_stored(block: &Block, held: Option<Vec<u8>>) -> (found: Result<
    Option<Vec<u8>>,
    Error,
>)
    ensures
        match held {
            None => found matches Ok(None),
            Some(bytes) => if block@ == block_of(bytes@) {
                found matches Ok(Some(data)) && data@ == bytes@
            } else {
                found matches Err(e) && e@ == Failure::Integrity
            },
        },
{
    match held {
        None => Ok(None),
        Some(bytes) => {
            if block.describes(bytes.as_slice()) {
                Ok(Some(bytes))
            } else {
                Err(Error::Integrity)
            }
        },
    }
}

/// Whether a store may write `data` for `block` once it has looked under the
/// block's hash and found `held` there: [`Error::Integrity`] where the block
/// does not describe the data, or where other bytes are held already.
pub fn check_write(block: &Block, held: Option<&[u8]>, data: &[u8]) -> (allowed: Result<
    (),
    Error,
>)
    ensures
        match allowed {
            Ok(()) => block@ == block_of(data@) && (held matches Some(bytes) ==> bytes@ == data@),
            Err(e) => {
                &&& e@ == Failure::Integrity
                &&& block@ != block_of(data@) || (held matches Some(bytes) && bytes@ != data@)
            },
        },
{
    if !block.describes(data) {
        return Err(Error::Integrity);
    }
    match held {
        Some(bytes) => {
            if same_bytes(bytes, data) {
                Ok(())
            } else {
                Err(Error::Integrity)
            }
        },
        None => Ok(()),
    }
}

/// Whether a store that holds `blocks` takes `data` for `block`: the block
/// describes the data, and no other bytes stand under its hash already.
pub open spec fn admits(blocks: BlockMap, block: BlockView, data: Seq<u8>) -> bool {
    &&& block == block_of(data)
    &&& blocks.contains_key(block.hash) ==> blocks[block.hash] == data
}

/// Whether every entry of `blocks` stands under the address of its own bytes.
pub open spec fn content_addressed(blocks: BlockMap) -> bool {
    forall|hash: Seq<char>| #[trigger]
        blocks.contains_key(hash) ==> address_of(blocks[hash]) == hash
}

/// Whether every manifest of `files` stands under its own hash.
pub open spec fn keyed_by_hash(files: FileMap) -> bool {
    forall|hash: Seq<char>| #[trigger] files.contains_key(hash) ==> files[hash].hash == hash
}

/// A content-addressed store of block bytes and manifests.
///
/// An implementation reports a failure of its own medium as [`Error::Io`], and
/// only a store that is not `reliable` may do so. Every other outcome is
/// fixed by what the store holds.
pub trait Storage {
    /// The block bytes held, by block hash.
    spec fn block_map(&self) -> BlockMap;

    /// The manifests held, by file hash.
    spec fn file_map(&self) -> FileMap;

    /// Whether the medium never fails.
    spec fn reliable(&self) -> bool;

    /// The manifest stored under `hash`, if there is one.
    fn get_file(&self, hash: &str) -> (found: Result<Option<File>, Error>)
        ensures
            match found {
                Ok(Some(file)) => self.file_map().contains_key(hash@) && file@
                    == self.file_map()[hash@],
                Ok(None) => !self.file_map().contains_key(hash@),
                Err(e) => e is Io && !self.reliable(),
            },
    ;

    /// Whether a manifest is stored under `hash`.
    fn file_exists(&self, hash: &str) -> (found: Result<bool, Error>)
        ensures
            match found {
                Ok(present) => present == self.file_map().contains_key(hash@),
                Err(e) => e is Io && !self.reliable(),
            },
    ;

    /// Stores `file` under its hash, in place of any manifest already there.
    fn upsert_file(&mut self, file: &File) -> (stored: Result<(), Error>)
        ensures
            final(self).reliable() == old(self).reliable(),
            match stored {
                Ok(()) => {
                    &&& final(self).file_map() == old(self).file_map().insert(file@.hash, file@)
                    &&& final(self).block_map() == old(self).block_map()
                },
                Err(e) => e is Io && !old(self).reliable(),
            },
    ;

    /// Removes the manifest stored under `hash`, if there is one.
    fn remove_file(&mut self, hash: &str) -> (removed: Result<(), Error>)
        ensures
            final(self).reliable() == old(self).reliable(),
            match removed {
                Ok(()) => {
                    &&& final(self).file_map() == old(self).file_map().remove(hash@)
                    &&& final(self).block_map() == old(self).block_map()
                },
                Err(e) => e is Io && !old(self).reliable(),
            },
    ;

    /// The bytes of `block`, if they are stored, checked against the block's
    /// length and hash before they are handed out.
    fn get_block_data(&self, block: &Block) -> (found: Result<Option<Vec<u8>>, Error>)
        ensures
            match found {
                Ok(Some(data)) => fetched(self.block_map(), block@) == Ok::<
                    Option<Seq<u8>>,
                    Failure,
                >(Some(data@)),
                Ok(None) => fetched(self.block_map(), block@) == Ok::<Option<Seq<u8>>, Failure>(
                    None,
                ),
                Err(e) => if e is Io {
                    !self.reliable()
                } else {
                    fetched(self.block_map(), block@) == Err::<Option<Seq<u8>>, Failure>(e@)
                },
            },
    ;

    /// Whether bytes are stored under the hash of `block`.
    fn block_exists(&self, block: &Block) -> (found: Result<bool, Error>)
        ensures
            match found {
                Ok(present) => present == self.block_map().contains_key(block@.hash),
                Err(e) => e is Io && !self.reliable(),
            },
    ;

    /// Stores `data` under the hash of `block`. Bytes that the block does not
    /// describe, and bytes that differ from those already under the hash, are
    /// refused with [`Error::Integrity`] and leave the store as it was.
    fn upsert_block_data(&mut self, block: &Block, data: &[u8]) -> (stored: Result<(), Error>)
        ensures
            final(self).reliable() == old(self).reliable(),
            match stored {
                Ok(()) => {
                    &&& admits(old(self).block_map(), block@, data@)
                    &&& final(self).block_map() == old(self).block_map().insert(
                        block@.hash,
                        data@,
                    )
                    &&& final(self).file_map() == old(self).file_map()
                },
                Err(e) => if e is Io {
                    !old(self).reliable()
                } else {
                    &&& e@ == Failure::Integrity
                    &&& !admits(old(self).block_map(), block@, data@)
                    &&& final(self).block_map() == old(self).block_map()
                    &&& final(self).file_map() == old(self).file_map()
                },
            },
    ;

    /// Removes the bytes stored under the hash of `block`, if there are any.
    fn remove_block_data(&mut self, block: &Block) -> (removed: Result<(), Error>)
        ensures
            final(self).reliable() == old(self).reliable(),
            match removed {
                Ok(()) => {
                    &&& final(self).block_map() == old(self).block_map().remove(block@.hash)
                    &&& final(self).file_map() == old(self).file_map()
                },
                Err(e) => e is Io && !old(self).reliable(),
            },
    ;
}

/// Whether two runs of bytes are the same.
pub fn same_bytes(a: &[u8], b: &[u8]) -> (same: bool)
    ensures
        same == (a@ == b@),
{
    if a.len() != b.len() {
        return false;
    }
    let mut i: usize = 0;
    while i < a.len()
        invariant
            a.len() == b.len(),
            i <= a.len(),
            forall|k: int| 0 <= k < i ==> a@[k] == b@[k],
        decreases a.len() - i,
    {
        if a[i] != b[i] {
            return false;
        }
        i += 1;
    }
    assert(a@ =~= b@);
    true
}

/// A store in memory: two maps, one of manifests and one of block bytes. It
/// never fails on its own account. Writing takes `&mut self`, so there is one
/// writer at a time; share it between threads behind a lock.
pub struct MemoryStorage {
    files: StringHashMap<File>,
    blocks: StringHashMap<Vec<u8>>,
}

impl MemoryStorage {
    /// Block bytes are only ever held under their own address, and manifests
    /// under their own hash.
    #[verifier::type_invariant]
    spec fn sound(self) -> bool {
        &&& forall|hash: Seq<char>| #[trigger]
            self.blocks@.contains_key(hash) ==> address_of(self.blocks@[hash]@) == hash
        &&& forall|hash: Seq<char>| #[trigger]
            self.files@.contains_key(hash) ==> self.files@[hash]@.hash == hash
    }

    /// An empty store.
    pub fn new() -> (storage: MemoryStorage)
        ensures
            storage.block_map() == BlockMap::empty(),
            storage.file_map() == FileMap::empty(),
            storage.reliable(),
            content_addressed(storage.block_map()),
            keyed_by_hash(storage.file_map()),
    {
        let storage = MemoryStorage { files: StringHashMap::new(), blocks: StringHashMap::new() };
        assert(storage.block_map() =~= BlockMap::empty());
        assert(storage.file_map() =~= FileMap::empty());
        storage
    }
}

impl Storage for MemoryStorage {
    closed spec fn block_map(&self) -> BlockMap {
        self.blocks@.map_values(|data: Vec<u8>| data@)
    }

    closed spec fn file_map(&self) -> FileMap {
        self.files@.map_values(|file: File| file@)
    }

    open spec fn reliable(&self) -> bool {
        true
    }

    fn get_file(&self, hash: &str) -> (found: Result<Option<File>, Error>)
        ensures
            found is Ok,
            keyed_by_hash(self.file_map()),
    {
        proof {
            use_type_invariant(self);
        }
        match self.files.get(hash) {
            Some(file) => Ok(Some(file.duplicate())),
            None => Ok(None),
        }
    }

    fn file_exists(&self, hash: &str) -> (found: Result<bool, Error>)
        ensures
            found is Ok,
    {
        Ok(self.files.contains_key(hash))
    }

    fn upsert_file(&mut self, file: &File) -> (stored: Result<(), Error>)
        ensures
            stored is Ok,
            keyed_by_hash(final(self).file_map()),
    {
        proof {
            use_type_invariant(&*self);
        }
        let mut files = StringHashMap::new();
        std::mem::swap(&mut files, &mut self.files);
        files.insert(file.hash.clone(), file.duplicate());
        self.files = files;
        assert(self.file_map() =~= old(self).file_map().insert(file@.hash, file@));
        Ok(())
    }

    fn remove_file(&mut self, hash: &str) -> (removed: Result<(), Error>)
        ensures
            removed is Ok,
            keyed_by_hash(final(self).file_map()),
    {
        proof {
            use_type_invariant(&*self);
        }
        let mut files = StringHashMap::new();
        std::mem::swap(&mut files, &mut self.files);
        files.remove(hash);
        self.files = files;
        assert(self.file_map() =~= old(self).file_map().remove(hash@));
        Ok(())
    }

    fn get_block_data(&self, block: &Block) -> (found: Result<Option<Vec<u8>>, Error>)
        ensures
            content_addressed(self.block_map()),
    {
        proof {
            use_type_invariant(self);
        }
        let held = match self.blocks.get(block.hash.as_str()) {
            Some(data) => Some(slice_to_vec(data.as_slice())),
            None => None,
        };
        check_stored(block, held)
    }

    fn block_exists(&self, block: &Block) -> (found: Result<bool, Error>)
        ensures
            found is Ok,
    {
        Ok(self.blocks.contains_key(block.hash.as_str()))
    }

    fn upsert_block_data(&mut self, block: &Block, data: &[u8]) -> (stored: Result<(), Error>)
        ensures
            content_addressed(final(self).block_map()),
    {
        proof {
            use_type_invariant(&*self);
        }
        let held = match self.blocks.get(block.hash.as_str()) {
            Some(bytes) => Some(bytes.as_slice()),
            None => None,
        };
        check_write(block, held, data)?;
        proof {
            use_type_invariant(&*self);
        }
        let mut blocks = StringHashMap::new();
        std::mem::swap(&mut blocks, &mut self.blocks);
        blocks.insert(block.hash.clone(), slice_to_vec(data));
        self.blocks = blocks;
        assert(self.block_map() =~= old(self).block_map().insert(block@.hash, data@));
        Ok(())
    }

    fn remove_block_data(&mut self, block: &Block) -> (removed: Result<(), Error>)
        ensures
            removed is Ok,
            content_addressed(final(self).block_map()),
    {
        proof {
            use_type_invariant(&*self);
        }
        let mut blocks = StringHashMap::new();
        std::mem::swap(&mut blocks, &mut self.blocks);
        blocks.remove(block.hash.as_str());
        self.blocks = blocks;
        assert(self.block_map() =~= old(self).block_map().remove(block@.hash));
        Ok(())
    }
}

} // verus!
