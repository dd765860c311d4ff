//! A file: the manifest of a payload, and the operations that cut a payload
//! into blocks, put it together again and check it.

use crate::block::{block_of, Block, BlockView};
use crate::crypto::{signature_valid, KeyPair, PublicKey};
use crate::digest::{address_of, blake3_digest, is_digest_text, Digest};
use crate::encoding::{from_hex, hex_decode, hex_encode, to_hex};
use crate::error::{AuthenticityFault, Error, Failure};
use crate::storage::{admits, fetched, BlockMap, Storage};
use vstd::prelude::*;
use vstd::slice::slice_subrange;

verus! {

/// The manifest of one payload.
#[derive(Clone, Debug)]
pub struct File {
    /// The blocks of the payload, in the order in which their bytes follow
    /// each other.
    pub blocks: Vec<Block>,
    /// The BLAKE3 digest of the whole payload, in lowercase hexadecimal.
    pub hash: String,
    /// An Ed25519 signature over the bytes of the digest, in hexadecimal.
    pub signature: Option<String>,
}

/// A [`File`] as specifications see it.
pub ghost struct FileView {
    pub blocks: Seq<BlockView>,
    pub hash: Seq<char>,
    pub signature: Option<Seq<char>>,
}

/// The views of a run of blocks.
pub open spec fn block_views(blocks: Seq<Block>) -> Seq<BlockView> {
    Seq::new(blocks.len(), |i: int| blocks[i]@)
}

impl View for File {
    type V = FileView;

    open spec fn view(&self) -> FileView {
        FileView {
            blocks: block_views(self.blocks@),
            hash: self.hash@,
            signature: match self.signature {
                Some(text) => Some(text@),
                None => None,
            },
        }
    }
}

/// The number of chunks of `size` bytes that `len` bytes are cut into: `len`
/// divided by `size`, rounded up. Nothing is cut into no chunks.
pub open spec fn chunk_count(len: nat, size: nat) -> nat {
    if size == 0 {
        0
    } else {
        ((len + size - 1) / (size as int)) as nat
    }
}

/// The chunk with index `i` of `data` cut into chunks of `size` bytes: `size`
/// bytes from `i * size` on, or what is left of `data` where that is less.
pub open spec fn chunk(data: Seq<u8>, size: nat, i: int) -> Seq<u8> {
    let start = i * size;
    let end = if start + size <= data.len() {
        start + size
    } else {
        data.len() as int
    };
    data.subrange(start, end)
}

/// The blocks of `data` cut into chunks of `size` bytes, in order.
pub open spec fn manifest_of(data: Seq<u8>, size: nat) -> Seq<BlockView> {
    Seq::new(chunk_count(data.len(), size), |i: int| block_of(chunk(data, size, i)))
}

/// The manifest that ingestion makes of `data` with chunks of `size` bytes.
pub open spec fn file_of(data: Seq<u8>, size: nat) -> FileView {
    FileView { blocks: manifest_of(data, size), hash: address_of(data), signature: None }
}

/// What a store that held `blocks` holds once the first `n` chunks of `data`
/// have been written to it.
pub open spec fn ingested(blocks: BlockMap, data: Seq<u8>, size: nat, n: nat) -> BlockMap
    decreases n,
{
    if n == 0 {
        blocks
    } else {
        let piece = chunk(data, size, n - 1);
        ingested(blocks, data, size, (n - 1) as nat).insert(address_of(piece), piece)
    }
}

/// Whether a store that held `blocks` takes the first `n` chunks of `data` one
/// after the other: none of them meets other bytes under its address.
pub open spec fn ingestible(blocks: BlockMap, data: Seq<u8>, size: nat, n: nat) -> bool
    decreases n,
{
    n == 0 || {
        let piece = chunk(data, size, n - 1);
        &&& ingestible(blocks, data, size, (n - 1) as nat)
        &&& admits(ingested(blocks, data, size, (n - 1) as nat), block_of(piece), piece)
    }
}

/// Whether ingestion stops at the chunk with index `written`: the chunks
/// before it are taken, and it is the first to be refused.
pub open spec fn refused_at(blocks: BlockMap, data: Seq<u8>, size: nat, written: nat) -> bool {
    &&& written < chunk_count(data.len(), size)
    &&& ingestible(blocks, data, size, written)
    &&& !ingestible(blocks, data, size, written + 1)
}

/// What putting `blocks` together from a store that holds `store` gives: the
/// bytes of the blocks one after the other, or the failure of the first block
/// that cannot be had. A block without bytes in the store is a
/// [`Failure::NotFound`] with its hash.
pub open spec fn reassembled(blocks: Seq<BlockView>, store: BlockMap) -> Result<Seq<u8>, Failure>
    decreases blocks.len(),
{
    if blocks.len() == 0 {
        Ok(Seq::empty())
    } else {
        match reassembled(blocks.drop_last(), store) {
            Err(failure) => Err(failure),
            Ok(head) => match fetched(store, blocks.last()) {
                Ok(Some(data)) => Ok(head + data),
                Ok(None) => Err(Failure::NotFound { hash: blocks.last().hash }),
                Err(failure) => Err(failure),
            },
        }
    }
}

/// What checking `file` against a store that holds `store` gives: the hash
/// must be readable, the payload must be had, and its digest must be the one
/// recorded.
pub open spec fn validated(file: FileView, store: BlockMap) -> Result<(), Failure> {
    if !is_digest_text(file.hash) {
        Err(Failure::Parse)
    } else {
        match reassembled(file.blocks, store) {
            Err(failure) => Err(failure),
            Ok(data) => if from_hex(file.hash) == Some(blake3_digest(data)) {
                Ok(())
            } else {
                Err(Failure::Integrity)
            },
        }
    }
}

/// Whether `file` carries a signature of the bytes of its digest that
/// verifies under `key`.
pub open spec fn signed_by(file: FileView, key: Seq<u8>) -> bool {
    &&& file.signature matches Some(text)
    &&& from_hex(text) matches Some(signature)
    &&& from_hex(file.hash) matches Some(digest)
    &&& signature_valid(key, digest, signature)
}

/// What checking and authenticating `file` gives: the payload is checked
/// first, then the signature must be there, be hexadecimal and verify under
/// `key`.
pub open spec fn verified(file: FileView, store: BlockMap, key: Seq<u8>) -> Result<(), Failure> {
    match validated(file, store) {
        Err(failure) => Err(failure),
        Ok(()) => if file.signature is None {
            Err(Failure::Authenticity(AuthenticityFault::NoSignature))
        } else if signed_by(file, key) {
            Ok(())
        } else {
            Err(Failure::Authenticity(AuthenticityFault::Invalid))
        },
    }
}

/// The test that picks the blocks without bytes in a store that holds `store`.
pub open spec fn lacks(store: BlockMap) -> spec_fn(BlockView) -> bool {
    |block: BlockView| !store.contains_key(block.hash)
}

/// The blocks among `blocks` without bytes in a store that holds `store`, in
/// their order, each as often as it stands in `blocks`.
pub open spec fn missing(blocks: Seq<BlockView>, store: BlockMap) -> Seq<BlockView> {
    blocks.filter(lacks(store))
}

/// How much of a manifest a store holds: `finished` of its `total` blocks.
#[derive(Clone, Copy, Debug, PartialEq, Eq, Structural)]
pub struct Progress {
    /// The number of blocks whose bytes the store holds.
    pub finished: usize,
    /// The number of blocks in the manifest.
    pub total: usize,
}

impl Progress {
    /// Whether nothing is missing. A manifest without blocks is complete.
    pub fn is_complete(&self) -> (complete: bool)
        ensures
            complete == (self.finished == self.total),
    {
        self.finished == self.total
    }
}

/// A failure among the first blocks is the failure of the whole.
pub proof fn lemma_reassembled_prefix_fails(blocks: Seq<BlockView>, store: BlockMap, n: int)
    requires
        0 <= n <= blocks.len(),
        reassembled(blocks.take(n), store) is Err,
    ensures
        reassembled(blocks, store) == reassembled(blocks.take(n), store),
    decreases blocks.len() - n,
{
    if n < blocks.len() {
        assert(blocks.take(n + 1).drop_last() =~= blocks.take(n));
        lemma_reassembled_prefix_fails(blocks, store, n + 1);
    } else {
        assert(blocks.take(n) =~= blocks);
    }
}

/// The missing blocks of a run, from those of the run without its last block.
pub proof fn lemma_missing_unfold(blocks: Seq<BlockView>, store: BlockMap)
    ensures
        blocks.len() == 0 ==> missing(blocks, store) == Seq::<BlockView>::empty(),
        blocks.len() > 0 ==> missing(blocks, store) == if store.contains_key(blocks.last().hash) {
            missing(blocks.drop_last(), store)
        } else {
            missing(blocks.drop_last(), store).push(blocks.last())
        },
{
    reveal(Seq::filter);
    if blocks.len() == 0 {
        assert(blocks =~= Seq::<BlockView>::empty());
    }
}

/// A chunk index lies below the chunk count exactly when the chunk starts
/// inside the data.
pub proof fn lemma_chunk_index(len: nat, size: nat, i: nat)
    requires
        size > 0,
    ensures
        i < chunk_count(len, size) <==> i * size < len,
{
    let count = (len + size - 1) / (size as int);
    assert(count * size <= len + size - 1 < count * size + size) by (nonlinear_arith)
        requires
            size > 0,
            count == (len + size - 1) / (size as int),
    ;
    if i < count {
        assert((i + 1) * size <= count * size) by (nonlinear_arith)
            requires
                i + 1 <= count,
                size > 0,
        ;
        assert((i + 1) * size == i * size + size) by (nonlinear_arith);
    } else {
        assert(count * size <= i * size) by (nonlinear_arith)
            requires
                count <= i,
                size > 0,
        ;
    }
}

/// Once a chunk has been refused, no longer run of chunks is taken.
pub proof fn lemma_ingestible_prefix(blocks: BlockMap, data: Seq<u8>, size: nat, k: nat, n: nat)
    requires
        k <= n,
        ingestible(blocks, data, size, n),
    ensures
        ingestible(blocks, data, size, k),
    decreases n,
{
    if k < n {
        lemma_ingestible_prefix(blocks, data, size, k, (n - 1) as nat);
    }
}

/// Adds `more` to the end of `bytes`.
fn append_bytes(bytes: &mut Vec<u8>, more: &[u8])
    ensures
        final(bytes)@ == old(bytes)@ + more@,
{
    bytes.extend_from_slice(more);
    assert(bytes@ =~= old(bytes)@ + more@);
}

impl File {
    /// An unsigned manifest with the given blocks and hash, taken as they are.
    pub fn new(blocks: Vec<Block>, hash: String) -> (file: File)
        ensures
            file.blocks == blocks,
            file.hash == hash,
            file.signature is None,
    {
        File { blocks, hash, signature: None }
    }

    /// Cuts `data` into chunks of `block_size` bytes, the last one shorter
    /// where the length is no multiple of it, writes each chunk to `storage`
    /// under its address, and returns the unsigned manifest. Empty data gives a
    /// manifest without blocks.
    ///
    /// A `block_size` of zero is an [`Error::Config`]. A chunk that meets other
    /// bytes under its address in the store is refused by the store with
    /// [`Error::Integrity`]; the chunks before it have then been written.
    pub fn from_data<S: Storage>(data: &[u8], block_size: u64, storage: &mut S) -> (made: Result<
        File,
        Error,
    >)
        ensures
            final(storage).reliable() == old(storage).reliable(),
            block_size == 0 ==> made is Err && made->Err_0@ == Failure::Config,
            old(storage).reliable() && block_size > 0 && ingestible(
                old(storage).block_map(),
                data@,
                block_size as nat,
                chunk_count(data@.len(), block_size as nat),
            ) ==> made is Ok,
            match made {
                Ok(file) => {
                    &&& block_size > 0
                    &&& file@ == file_of(data@, block_size as nat)
                    &&& file@.blocks.len() == chunk_count(data@.len(), block_size as nat)
                    &&& file@.hash == address_of(data@)
                    &&& is_digest_text(file@.hash)
                    &&& ingestible(
                        old(storage).block_map(),
                        data@,
                        block_size as nat,
                        file@.blocks.len(),
                    )
                    &&& final(storage).block_map() == ingested(
                        old(storage).block_map(),
                        data@,
                        block_size as nat,
                        file@.blocks.len(),
                    )
                    &&& final(storage).file_map() == old(storage).file_map()
                },
                Err(e) => match e@ {
                    Failure::Config => {
                        &&& block_size == 0
                        &&& final(storage).block_map() == old(storage).block_map()
                        &&& final(storage).file_map() == old(storage).file_map()
                    },
                    Failure::Integrity => {
                        &&& block_size > 0
                        &&& final(storage).file_map() == old(storage).file_map()
                        &&& exists|written: nat|
                            {
                                &&& refused_at(
                                    old(storage).block_map(),
                                    data@,
                                    block_size as nat,
                                    written,
                                )
                                &&& final(storage).block_map() == #[trigger] ingested(
                                    old(storage).block_map(),
                                    data@,
                                    block_size as nat,
                                    written,
                                )
                            }
                    },
                    Failure::Io { .. } => block_size > 0 && !old(storage).reliable(),
                    _ => false,
                },
            },
    {
        if block_size == 0 {
            return Err(Error::Config);
        }
        let ghost size = block_size as nat;
        let ghost count = chunk_count(data@.len(), size);
        let ghost before = storage.block_map();
        let len = data.len();
        let mut blocks: Vec<Block> = Vec::new();
        let mut start: usize = 0;
        proof {
            lemma_chunk_index(data@.len(), size, 0);
        }
        while start < len
            invariant
                len == data@.len(),
                size == block_size > 0,
                count == chunk_count(data@.len(), size),
                before == old(storage).block_map(),
                blocks.len() <= count,
                start <= len,
                blocks.len() < count ==> start == blocks.len() * size,
                blocks.len() == count ==> start == len,
                forall|i: int|
                    0 <= i < blocks.len() ==> (#[trigger] blocks[i])@ == block_of(
                        chunk(data@, size, i),
                    ),
                ingestible(before, data@, size, blocks.len() as nat),
                storage.block_map() == ingested(before, data@, size, blocks.len() as nat),
                storage.file_map() == old(storage).file_map(),
                storage.reliable() == old(storage).reliable(),
            decreases len - start,
        {
            let ghost done = blocks.len() as nat;
            let left = len - start;
            let take: usize = if left as u64 <= block_size {
                left
            } else {
                block_size as usize
            };
            let end = start + take;
            let piece = slice_subrange(data, start, end);
            proof {
                lemma_chunk_index(data@.len(), size, done);
                lemma_chunk_index(data@.len(), size, done + 1);
                assert((done + 1) * size == done * size + size) by (nonlinear_arith);
                assert(piece@ == chunk(data@, size, done as int));
            }
            let block = Block::from_data(piece);
            match storage.upsert_block_data(&block, piece) {
                Ok(()) => {},
                Err(e) => {
                    proof {
                        if !(e is Io) {
                            assert(refused_at(before, data@, size, done));
                            if ingestible(before, data@, size, count) {
                                lemma_ingestible_prefix(before, data@, size, done + 1, count);
                            }
                        }
                    }
                    return Err(e);
                },
            }
            blocks.push(block);
            start = end;
        }
        let hash = Digest::of(data).to_hex();
        let file = File { blocks, hash, signature: None };
        proof {
            lemma_chunk_index(data@.len(), size, file.blocks.len() as nat);
            assert(file@.blocks =~= manifest_of(data@, size));
        }
        Ok(file)
    }

    /// Signs the bytes of the digest with `keypair` and records the signature
    /// in lowercase hexadecimal, in place of any signature that was there.
    /// [`Error::Parse`] where the hash cannot be read; the manifest then stays
    /// as it was.
    pub fn sign(&mut self, keypair: &KeyPair) -> (signed: Result<(), Error>)
        ensures
            final(self)@.blocks == old(self)@.blocks,
            final(self)@.hash == old(self)@.hash,
            match signed {
                Ok(()) => {
                    &&& is_digest_text(old(self)@.hash)
                    &&& signed_by(final(self)@, keypair.public_key())
                    &&& final(self)@.signature->0 == to_hex(from_hex(final(self)@.signature->0)->0)
                },
                Err(e) => {
                    &&& e@ == Failure::Parse
                    &&& !is_digest_text(old(self)@.hash)
                    &&& final(self)@ == old(self)@
                },
            },
    {
        let digest = self.hash()?;
        let signature = keypair.sign(digest.as_bytes());
        proof {
            crate::encoding::lemma_hex_round_trip(signature@);
        }
        self.signature = Some(hex_encode(signature.as_slice()));
        Ok(())
    }

    /// The recorded hash as a digest; [`Error::Parse`] where it is not 64
    /// hexadecimal digits.
    pub fn hash(&self) -> (parsed: Result<Digest, Error>)
        ensures
            match parsed {
                Ok(digest) => is_digest_text(self@.hash) && from_hex(self@.hash) == Some(digest@),
                Err(e) => !is_digest_text(self@.hash) && e@ == Failure::Parse,
            },
    {
        Digest::from_hex(self.hash.as_str())
    }

    /// Puts the payload together: the bytes of the blocks, fetched from
    /// `storage` in order. All or nothing: the first block that is absent
    /// gives [`Error::NotFound`] with its hash, the first whose stored bytes
    /// it does not describe gives [`Error::Integrity`].
    pub fn data<S: Storage>(&self, storage: &S) -> (read: Result<Vec<u8>, Error>)
        ensures
            match read {
                Ok(data) => reassembled(self@.blocks, storage.block_map()) == Ok::<
                    Seq<u8>,
                    Failure,
                >(data@),
                Err(e) => if e is Io {
                    !storage.reliable()
                } else {
                    reassembled(self@.blocks, storage.block_map()) == Err::<Seq<u8>, Failure>(e@)
                },
            },
    {
        let ghost store = storage.block_map();
        let mut data: Vec<u8> = Vec::new();
        let mut i: usize = 0;
        assert(self@.blocks.take(0) =~= Seq::empty());
        while i < self.blocks.len()
            invariant
                i <= self.blocks.len(),
                store == storage.block_map(),
                reassembled(self@.blocks.take(i as int), store) == Ok::<Seq<u8>, Failure>(data@),
            decreases self.blocks.len() - i,
        {
            let block = &self.blocks[i];
            proof {
                assert(self@.blocks.take(i + 1).drop_last() =~= self@.blocks.take(i as int));
                assert(self@.blocks.take(i + 1).last() == block@);
            }
            match storage.get_block_data(block) {
                Ok(Some(bytes)) => {
                    append_bytes(&mut data, bytes.as_slice());
                },
                Ok(None) => {
                    proof {
                        lemma_reassembled_prefix_fails(self@.blocks, store, i + 1);
                    }
                    return Err(Error::NotFound { hash: block.hash.clone() });
                },
                Err(e) => {
                    proof {
                        if !(e is Io) {
                            lemma_reassembled_prefix_fails(self@.blocks, store, i + 1);
                        }
                    }
                    return Err(e);
                },
            }
            i += 1;
        }
        assert(self@.blocks.take(i as int) =~= self@.blocks);
        Ok(data)
    }

    /// Checks the payload: reads the recorded hash, puts the payload together
    /// from `storage` and compares its digest. The store is only read.
    /// [`Error::Integrity`] where the digest differs.
    pub fn validate<S: Storage>(&self, storage: &S) -> (checked: Result<(), Error>)
        ensures
            match checked {
                Ok(()) => validated(self@, storage.block_map()) == Ok::<(), Failure>(()),
                Err(e) => if e is Io {
                    !storage.reliable()
                } else {
                    validated(self@, storage.block_map()) == Err::<(), Failure>(e@)
                },
            },
    {
        let recorded = self.hash()?;
        let data = self.data(storage)?;
        let actual = Digest::of(data.as_slice());
        if recorded.same_as(&actual) {
            Ok(())
        } else {
            Err(Error::Integrity)
        }
    }

    /// Checks the payload as [`File::validate`] does and then the signature
    /// under `public_key`. A payload that fails the check is never reported as
    /// unsigned: only when the payload is sound does a missing signature give
    /// [`AuthenticityFault::NoSignature`], and one that is no hexadecimal text
    /// or does not verify [`AuthenticityFault::Invalid`].
    pub fn validate_and_verify<S: Storage>(&self, storage: &S, public_key: &PublicKey) -> (checked:
        Result<(), Error>)
        ensures
            match checked {
                Ok(()) => verified(self@, storage.block_map(), public_key@) == Ok::<(), Failure>(
                    (),
                ),
                Err(e) => if e is Io {
                    !storage.reliable()
                } else {
                    verified(self@, storage.block_map(), public_key@) == Err::<(), Failure>(e@)
                },
            },
    {
        self.validate(storage)?;
        let digest = self.hash()?;
        match &self.signature {
            None => Err(Error::Authenticity(AuthenticityFault::NoSignature)),
            Some(text) => match hex_decode(text.as_str()) {
                Err(_) => Err(Error::Authenticity(AuthenticityFault::Invalid)),
                Ok(signature) => public_key.verify(digest.as_bytes(), signature.as_slice()),
            },
        }
    }

    /// The blocks of the manifest whose bytes `storage` does not hold, in
    /// manifest order: what is still to be acquired.
    pub fn unfinished_blocks<S: Storage>(&self, storage: &S) -> (absent: Result<Vec<Block>, Error>)
        ensures
            match absent {
                Ok(blocks) => {
                    &&& block_views(blocks@) == missing(self@.blocks, storage.block_map())
                    &&& blocks@.len() == missing(self@.blocks, storage.block_map()).len()
                },
                Err(e) => e is Io && !storage.reliable(),
            },
    {
        let ghost store = storage.block_map();
        let mut absent: Vec<Block> = Vec::new();
        let mut i: usize = 0;
        proof {
            lemma_missing_unfold(self@.blocks.take(0), store);
            assert(block_views(absent@) =~= Seq::<BlockView>::empty());
        }
        while i < self.blocks.len()
            invariant
                i <= self.blocks.len(),
                store == storage.block_map(),
                block_views(absent@) == missing(self@.blocks.take(i as int), store),
            decreases self.blocks.len() - i,
        {
            let block = &self.blocks[i];
            proof {
                assert(self@.blocks.take(i + 1).drop_last() =~= self@.blocks.take(i as int));
                assert(self@.blocks.take(i + 1).last() == block@);
                lemma_missing_unfold(self@.blocks.take(i + 1), store);
            }
            let ghost before = block_views(absent@);
            if !storage.block_exists(block)? {
                absent.push(block.duplicate());
                assert(block_views(absent@) =~= before.push(block@));
            }
            i += 1;
        }
        assert(self@.blocks.take(i as int) =~= self@.blocks);
        Ok(absent)
    }

    /// How many of the blocks of the manifest `storage` holds, beside how many
    /// there are.
    pub fn progress<S: Storage>(&self, storage: &S) -> (counted: Result<Progress, Error>)
        ensures
            match counted {
                Ok(progress) => {
                    &&& progress.total == self@.blocks.len()
                    &&& progress.finished == self@.blocks.len() - missing(
                        self@.blocks,
                        storage.block_map(),
                    ).len()
                },
                Err(e) => e is Io && !storage.reliable(),
            },
    {
        let absent = self.unfinished_blocks(storage)?;
        proof {
            self@.blocks.lemma_filter_len(lacks(storage.block_map()));
        }
        Ok(Progress { finished: self.blocks.len() - absent.len(), total: self.blocks.len() })
    }

    /// A copy of this manifest.
    pub fn duplicate(&self) -> (copy: File)
        ensures
            copy@ == self@,
    {
        let mut blocks: Vec<Block> = Vec::new();
        let mut i: usize = 0;
        while i < self.blocks.len()
            invariant
                i <= self.blocks.len(),
                blocks.len() == i,
                forall|k: int| 0 <= k < i ==> blocks[k]@ == self.blocks[k]@,
            decreases self.blocks.len() - i,
        {
            blocks.push(self.blocks[i].duplicate());
            i += 1;
        }
        let signature = match &self.signature {
            Some(text) => Some(text.clone()),
            None => None,
        };
        let copy = File { blocks, hash: self.hash.clone(), signature };
        assert(copy@.blocks =~= self@.blocks);
        copy
    }
}

} // verus!
