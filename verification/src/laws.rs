//! What holds of ingestion, reassembly, validation and completeness taken
//! together, for every payload and every store.

use crate::block::{block_of, BlockView};
use crate::digest::{address_of, blake3_digest, is_digest_text};
use crate::encoding::lemma_hex_round_trip;
use crate::error::{AuthenticityFault, Failure};
use crate::file::{
    chunk, chunk_count, file_of, ingested, ingestible, lemma_chunk_index, lemma_missing_unfold,
    lemma_reassembled_prefix_fails, manifest_of, missing, reassembled, signed_by, validated,
    verified, FileView,
};
use crate::storage::{admits, fetched, BlockMap};
use vstd::arithmetic::div_mod::lemma_fundamental_div_mod;
use vstd::prelude::*;

verus! {

/// Every chunk but the last has `size` bytes. The last has the remainder of
/// the length by `size` where that is not zero, and `size` bytes otherwise.
pub proof fn lemma_chunk_lengths(data: Seq<u8>, size: nat, i: int)
    requires
        size > 0,
        0 <= i < chunk_count(data.len(), size),
    ensures
        chunk(data, size, i).len() == if i + 1 < chunk_count(data.len(), size) || data.len() % size
            == 0 {
            size
        } else {
            data.len() % size
        },
        manifest_of(data, size)[i] == block_of(chunk(data, size, i)),
        data.len() <= u64::MAX ==> manifest_of(data, size)[i].length == chunk(data, size, i).len(),
{
    let len = data.len();
    let count = chunk_count(len, size);
    let q = len / size;
    let r = len % size;
    lemma_fundamental_div_mod(len as int, size as int);
    assert(size * q == q * size) by (nonlinear_arith);
    lemma_chunk_index(len, size, i as nat);
    lemma_chunk_index(len, size, (i + 1) as nat);
    lemma_chunk_index(len, size, q);
    lemma_chunk_index(len, size, q + 1);
    assert((i + 1) * size == i * size + size) by (nonlinear_arith);
    assert((q + 1) * size == q * size + size) by (nonlinear_arith);
    if i + 1 < count {
    } else {
        assert(i + 1 == count);
        if r == 0 {
            assert(count <= q);
            assert(i * size < q * size);
            assert(i < q) by (nonlinear_arith)
                requires
                    i * size < q * size,
                    size > 0,
            ;
            lemma_chunk_index(len, size, (q - 1) as nat);
            assert((q - 1) * size == q * size - size) by (nonlinear_arith);
            assert(i + 1 == q);
        } else {
            assert(q < count && count <= q + 1);
            assert(i == q);
        }
    }
}

/// The number of chunks is the length divided by the chunk size, rounded up:
/// that many chunks cover the data, and one fewer would not.
pub proof fn lemma_chunk_count_is_ceiling(len: nat, size: nat)
    requires
        size > 0,
    ensures
        chunk_count(len, size) * size >= len,
        len > 0 ==> (chunk_count(len, size) - 1) * size < len,
        len == 0 ==> chunk_count(len, size) == 0,
{
    let count = chunk_count(len, size);
    lemma_chunk_index(len, size, count);
    if count > 0 {
        lemma_chunk_index(len, size, (count - 1) as nat);
    }
    if len > 0 {
        lemma_chunk_index(len, size, 0);
        assert(0 * size == 0) by (nonlinear_arith);
    }
}

/// The hash of a manifest is the address of the payload, whatever the chunk
/// size.
pub proof fn lemma_hash_ignores_block_size(data: Seq<u8>, size_a: nat, size_b: nat)
    ensures
        file_of(data, size_a).hash == address_of(data),
        file_of(data, size_a).hash == file_of(data, size_b).hash,
{
}

/// After the first `n` chunks have been taken, the store holds each of them
/// under its address.
pub proof fn lemma_ingested_holds_chunks(
    store: BlockMap,
    data: Seq<u8>,
    size: nat,
    n: nat,
    i: int,
)
    requires
        ingestible(store, data, size, n),
        0 <= i < n,
    ensures
        ingested(store, data, size, n).contains_key(address_of(chunk(data, size, i))),
        ingested(store, data, size, n)[address_of(chunk(data, size, i))] == chunk(data, size, i),
        fetched(ingested(store, data, size, n), block_of(chunk(data, size, i))) == Ok::<
            Option<Seq<u8>>,
            Failure,
        >(Some(chunk(data, size, i))),
    decreases n,
{
    if i < n - 1 {
        lemma_ingested_holds_chunks(store, data, size, (n - 1) as nat, i);
    }
}

/// Putting the first `k` blocks together gives the first `k` chunks of the
/// payload, one after the other.
proof fn lemma_reassembled_chunks(store: BlockMap, data: Seq<u8>, size: nat, k: nat)
    requires
        size > 0,
        ingestible(store, data, size, chunk_count(data.len(), size)),
        k <= chunk_count(data.len(), size),
    ensures
        reassembled(
            manifest_of(data, size).take(k as int),
            ingested(store, data, size, chunk_count(data.len(), size)),
        ) == Ok::<Seq<u8>, Failure>(
            data.subrange(
                0,
                if k * size <= data.len() {
                    (k * size) as int
                } else {
                    data.len() as int
                },
            ),
        ),
    decreases k,
{
    let count = chunk_count(data.len(), size);
    let blocks = manifest_of(data, size);
    let held = ingested(store, data, size, count);
    if k == 0 {
        assert(blocks.take(0) =~= Seq::<BlockView>::empty());
        assert(0 * size == 0) by (nonlinear_arith);
        assert(data.subrange(0, 0) =~= Seq::<u8>::empty());
    } else {
        let j = (k - 1) as nat;
        lemma_reassembled_chunks(store, data, size, j);
        lemma_ingested_holds_chunks(store, data, size, count, j as int);
        lemma_chunk_index(data.len(), size, j);
        assert(k * size == j * size + size) by (nonlinear_arith)
            requires
                k == j + 1,
        ;
        assert(blocks.take(k as int).drop_last() =~= blocks.take(j as int));
        assert(blocks.take(k as int).last() == block_of(chunk(data, size, j as int)));
        let end = if k * size <= data.len() {
            (k * size) as int
        } else {
            data.len() as int
        };
        assert(data.subrange(0, (j * size) as int) + chunk(data, size, j as int) =~= data.subrange(
            0,
            end,
        ));
    }
}

/// Round trip: where a store takes the chunks of a payload, putting the
/// manifest together from that store gives the payload again.
pub proof fn lemma_round_trip(store: BlockMap, data: Seq<u8>, size: nat)
    requires
        size > 0,
        ingestible(store, data, size, chunk_count(data.len(), size)),
    ensures
        reassembled(
            file_of(data, size).blocks,
            ingested(store, data, size, chunk_count(data.len(), size)),
        ) == Ok::<Seq<u8>, Failure>(data),
{
    let count = chunk_count(data.len(), size);
    lemma_reassembled_chunks(store, data, size, count);
    lemma_chunk_index(data.len(), size, count);
    assert(manifest_of(data, size).take(count as int) =~= manifest_of(data, size));
    assert(data.subrange(0, data.len() as int) =~= data);
}

/// A file validates against the store that has just taken its chunks.
pub proof fn lemma_ingested_file_validates(store: BlockMap, data: Seq<u8>, size: nat)
    requires
        size > 0,
        ingestible(store, data, size, chunk_count(data.len(), size)),
        is_digest_text(file_of(data, size).hash),
    ensures
        validated(
            file_of(data, size),
            ingested(store, data, size, chunk_count(data.len(), size)),
        ) == Ok::<(), Failure>(()),
{
    lemma_round_trip(store, data, size);
    lemma_hex_round_trip(blake3_digest(data));
}

/// What tampering does to the blocks before the first one that it touches:
/// nothing; and from that block on the whole fails.
proof fn lemma_tampered_prefix(
    blocks: Seq<BlockView>,
    store: BlockMap,
    hash: Seq<char>,
    tampered: Seq<u8>,
    n: int,
)
    requires
        0 <= n <= blocks.len(),
        reassembled(blocks.take(n), store) is Ok,
        forall|j: int| 0 <= j < n && blocks[j].hash == hash ==> block_of(tampered) != blocks[j],
    ensures
        (forall|j: int| 0 <= j < n ==> blocks[j].hash != hash) ==> reassembled(
            blocks.take(n),
            store.insert(hash, tampered),
        ) == reassembled(blocks.take(n), store),
        (exists|j: int| 0 <= j < n && blocks[j].hash == hash) ==> reassembled(
            blocks.take(n),
            store.insert(hash, tampered),
        ) == Err::<Seq<u8>, Failure>(Failure::Integrity),
    decreases n,
{
    if n > 0 {
        assert(blocks.take(n).drop_last() =~= blocks.take(n - 1));
        assert(blocks.take(n).last() == blocks[n - 1]);
        lemma_tampered_prefix(blocks, store, hash, tampered, n - 1);
        if exists|j: int| 0 <= j < n && blocks[j].hash == hash {
            if exists|j: int| 0 <= j < n - 1 && blocks[j].hash == hash {
            } else {
                assert(blocks[n - 1].hash == hash);
            }
        }
    } else {
        assert(blocks.take(0) =~= Seq::<BlockView>::empty());
    }
}

/// Tamper detection: once the bytes under the hash of one of the blocks of a
/// sound file are replaced by bytes that the block does not describe, the
/// check fails with [`Failure::Integrity`].
pub proof fn lemma_tampering_is_detected(
    file: FileView,
    store: BlockMap,
    i: int,
    tampered: Seq<u8>,
)
    requires
        validated(file, store) is Ok,
        0 <= i < file.blocks.len(),
        block_of(tampered) != file.blocks[i],
    ensures
        validated(file, store.insert(file.blocks[i].hash, tampered)) == Err::<(), Failure>(
            Failure::Integrity,
        ),
{
    let blocks = file.blocks;
    let hash = blocks[i].hash;
    assert forall|j: int| 0 <= j <= blocks.len() implies reassembled(blocks.take(j), store)
        is Ok by {
        if reassembled(blocks.take(j), store) is Err {
            lemma_reassembled_prefix_fails(blocks, store, j);
        }
    }
    assert forall|j: int| 0 <= j < blocks.len() && blocks[j].hash == hash implies block_of(tampered)
        != blocks[j] by {
        // Both blocks describe the bytes that stood under the shared hash.
        assert(blocks.take(j + 1).drop_last() =~= blocks.take(j));
        assert(blocks.take(j + 1).last() == blocks[j]);
        assert(reassembled(blocks.take(j + 1), store) is Ok);
        assert(blocks.take(i + 1).drop_last() =~= blocks.take(i));
        assert(blocks.take(i + 1).last() == blocks[i]);
        assert(reassembled(blocks.take(i + 1), store) is Ok);
    }
    assert(blocks.take(blocks.len() as int) =~= blocks);
    lemma_tampered_prefix(blocks, store, hash, tampered, blocks.len() as int);
}

/// Tamper detection, byte by byte: once one byte of the stored bytes of one of
/// the blocks of a sound file is changed, the check fails with
/// [`Failure::Integrity`], unless the changed bytes have the digest of the
/// bytes that they replace.
pub proof fn lemma_changed_byte_is_detected(
    file: FileView,
    store: BlockMap,
    i: int,
    position: int,
    value: u8,
)
    requires
        validated(file, store) is Ok,
        0 <= i < file.blocks.len(),
        0 <= position < store[file.blocks[i].hash].len(),
        value != store[file.blocks[i].hash][position],
        address_of(store[file.blocks[i].hash].update(position, value)) != address_of(
            store[file.blocks[i].hash],
        ),
    ensures
        validated(
            file,
            store.insert(
                file.blocks[i].hash,
                store[file.blocks[i].hash].update(position, value),
            ),
        ) == Err::<(), Failure>(Failure::Integrity),
{
    let blocks = file.blocks;
    let held = store[blocks[i].hash];
    if reassembled(blocks.take(i + 1), store) is Err {
        lemma_reassembled_prefix_fails(blocks, store, i + 1);
    }
    assert(blocks.take(i + 1).drop_last() =~= blocks.take(i));
    assert(blocks.take(i + 1).last() == blocks[i]);
    assert(blocks[i] == block_of(held));
    lemma_tampering_is_detected(file, store, i, held.update(position, value));
}

/// Signing then verifying: a sound file that carries a signature made with a
/// key pair passes the check under that pair's public key.
pub proof fn lemma_signed_file_verifies(
    unsigned: FileView,
    signed: FileView,
    store: BlockMap,
    key: Seq<u8>,
)
    requires
        validated(unsigned, store) is Ok,
        signed.blocks == unsigned.blocks,
        signed.hash == unsigned.hash,
        signed_by(signed, key),
    ensures
        verified(signed, store, key) == Ok::<(), Failure>(()),
{
}

/// A sound file whose signature does not verify under a key is refused as
/// inauthentic.
pub proof fn lemma_foreign_key_is_refused(file: FileView, store: BlockMap, key: Seq<u8>)
    requires
        validated(file, store) is Ok,
        file.signature is Some,
        !signed_by(file, key),
    ensures
        verified(file, store, key) == Err::<(), Failure>(
            Failure::Authenticity(AuthenticityFault::Invalid),
        ),
{
}

/// A sound file without a signature is refused as unsigned, and a file that is
/// not sound is refused for that, signed or not.
pub proof fn lemma_unsigned_file_is_refused(file: FileView, store: BlockMap, key: Seq<u8>)
    requires
        file.signature is None,
    ensures
        validated(file, store) is Ok ==> verified(file, store, key) == Err::<(), Failure>(
            Failure::Authenticity(AuthenticityFault::NoSignature),
        ),
        validated(file, store) is Err ==> verified(file, store, key) == validated(file, store),
{
}

/// Nothing is missing from a store that holds the bytes of every block.
proof fn lemma_none_missing(blocks: Seq<BlockView>, store: BlockMap)
    requires
        forall|i: int| 0 <= i < blocks.len() ==> store.contains_key(#[trigger] blocks[i].hash),
    ensures
        missing(blocks, store) == Seq::<BlockView>::empty(),
    decreases blocks.len(),
{
    lemma_missing_unfold(blocks, store);
    if blocks.len() > 0 {
        assert(store.contains_key(blocks[blocks.len() - 1].hash));
        lemma_none_missing(blocks.drop_last(), store);
    }
}

/// Completeness after ingestion: right after a store has taken the chunks of
/// a payload, no block of the manifest is missing from it.
pub proof fn lemma_complete_after_ingestion(store: BlockMap, data: Seq<u8>, size: nat)
    requires
        size > 0,
        ingestible(store, data, size, chunk_count(data.len(), size)),
    ensures
        missing(
            file_of(data, size).blocks,
            ingested(store, data, size, chunk_count(data.len(), size)),
        ) == Seq::<BlockView>::empty(),
{
    let count = chunk_count(data.len(), size);
    let blocks = manifest_of(data, size);
    let held = ingested(store, data, size, count);
    assert forall|i: int| 0 <= i < blocks.len() implies held.contains_key(
        #[trigger] blocks[i].hash,
    ) by {
        lemma_ingested_holds_chunks(store, data, size, count, i);
    }
    lemma_none_missing(blocks, held);
}

/// Completeness against a store without block bytes: every block of the
/// manifest is missing.
pub proof fn lemma_all_missing_from_empty_store(blocks: Seq<BlockView>)
    ensures
        missing(blocks, BlockMap::empty()) == blocks,
    decreases blocks.len(),
{
    lemma_missing_unfold(blocks, BlockMap::empty());
    if blocks.len() > 0 {
        lemma_all_missing_from_empty_store(blocks.drop_last());
        assert(blocks.drop_last().push(blocks.last()) =~= blocks);
    }
}

/// Deduplication: writing a chunk that the store already holds changes
/// nothing, so a chunk that two payloads share has one entry.
pub proof fn lemma_known_chunk_is_stored_once(store: BlockMap, piece: Seq<u8>)
    requires
        store.contains_key(address_of(piece)),
        admits(store, block_of(piece), piece),
    ensures
        store.insert(address_of(piece), piece) == store,
{
    assert(store.insert(address_of(piece), piece) =~= store);
}

/// The addresses of the first `n` chunks of `data`.
pub open spec fn chunk_addresses(data: Seq<u8>, size: nat, n: nat) -> Set<Seq<char>> {
    Set::new(|hash: Seq<char>| exists|i: int| 0 <= i < n && hash == address_of(chunk(data, size, i)))
}

/// Deduplication: ingestion adds to a store one entry for each address among
/// the chunks, however many chunks share it, and nothing else.
pub proof fn lemma_ingested_entries(store: BlockMap, data: Seq<u8>, size: nat, n: nat)
    ensures
        ingested(store, data, size, n).dom() == store.dom().union(chunk_addresses(data, size, n)),
    decreases n,
{
    if n == 0 {
        assert(chunk_addresses(data, size, 0) =~= Set::<Seq<char>>::empty());
        assert(store.dom().union(Set::<Seq<char>>::empty()) =~= store.dom());
    } else {
        let m = (n - 1) as nat;
        lemma_ingested_entries(store, data, size, m);
        let added = address_of(chunk(data, size, m as int));
        assert forall|hash: Seq<char>| chunk_addresses(data, size, n).contains(hash)
            <==> chunk_addresses(data, size, m).contains(hash) || hash == added by {
            if chunk_addresses(data, size, n).contains(hash) {
                let i = choose|i: int| 0 <= i < n && hash == address_of(chunk(data, size, i));
                if i < m {
                    assert(chunk_addresses(data, size, m).contains(hash));
                }
            }
            if chunk_addresses(data, size, m).contains(hash) {
                let i = choose|i: int| 0 <= i < m && hash == address_of(chunk(data, size, i));
                assert(0 <= i < n && hash == address_of(chunk(data, size, i)));
            }
            if hash == added {
                assert(0 <= m < n && hash == address_of(chunk(data, size, m as int)));
            }
        }
        assert(ingested(store, data, size, n).dom() =~= store.dom().union(
            chunk_addresses(data, size, n),
        ));
    }
}

} // verus!
