//! What saving and loading come to on a store that keeps bytes faithfully.

use crate::save::{
    chunk_address, chunk_begin, chunk_bytes, chunk_count, chunk_end, lemma_chunks_tile, loaded,
    read_chunks, saved, wrote_chunks, SaveStore, TransferError, SAVE_OFFSET,
};
use vstd::prelude::*;

verus! {

/// Number of bytes in the first `n` chunks of a blob of `len` bytes.
spec fn chunks_len(len: int, n: int) -> int {
    if chunk_begin(n) < len {
        chunk_begin(n)
    } else {
        len
    }
}

/// `contents` with `bytes` in place of what stood at `offset`.
pub open spec fn overwrite(contents: Seq<u8>, offset: int, bytes: Seq<u8>) -> Seq<u8> {
    contents.subrange(0, offset) + bytes + contents.subrange(
        offset + bytes.len(),
        contents.len() as int,
    )
}

/// Whether `contents` holds `blob` at the save offset.
pub open spec fn holds_blob(contents: Seq<u8>, blob: Seq<u8>) -> bool {
    SAVE_OFFSET + blob.len() <= contents.len() && contents.subrange(
        SAVE_OFFSET as int,
        SAVE_OFFSET + blob.len(),
    ) == blob
}

/// The `len` bytes that `contents` holds at the save offset.
pub open spec fn stored_blob(contents: Seq<u8>, len: int) -> Seq<u8> {
    contents.subrange(SAVE_OFFSET as int, SAVE_OFFSET + len)
}

/// Whether a store keeps bytes faithfully, where `contents` tells the bytes
/// that a state of the store holds, by address: a write that succeeds lies
/// within the store and puts its bytes in place of what stood there, and a
/// read that succeeds lies within the store, gives what stands there and
/// changes nothing.
pub open spec fn is_byte_store<St: SaveStore>(contents: spec_fn(St) -> Seq<u8>) -> bool {
    &&& forall|before: St, offset: usize, bytes: Seq<u8>, after: St| #[trigger]
        St::writes(before, offset, bytes, true, after) ==> {
            &&& offset + bytes.len() <= contents(before).len()
            &&& contents(after) == overwrite(contents(before), offset as int, bytes)
        }
    &&& forall|before: St, offset: usize, data: Seq<u8>, after: St| #[trigger]
        St::reads(before, offset, data, true, after) ==> {
            &&& offset + data.len() <= contents(before).len()
            &&& data == contents(before).subrange(offset as int, offset + data.len())
            &&& contents(after) == contents(before)
        }
}

proof fn lemma_wrote_chunks_holds<St: SaveStore>(
    contents: spec_fn(St) -> Seq<u8>,
    before: St,
    blob: Seq<u8>,
    n: int,
    after: St,
)
    requires
        is_byte_store::<St>(contents),
        0 <= n <= chunk_count(blob.len() as int),
        SAVE_OFFSET + blob.len() <= usize::MAX,
        wrote_chunks(before, blob, n, after),
    ensures
        contents(after).len() == contents(before).len(),
        n > 0 ==> SAVE_OFFSET + chunks_len(blob.len() as int, n) <= contents(after).len(),
        forall|i: int|
            0 <= i < chunks_len(blob.len() as int, n) ==> contents(after)[SAVE_OFFSET + i]
                == blob[i],
    decreases n,
{
    if n > 0 {
        let mid = choose|mid: St|
            wrote_chunks(before, blob, n - 1, mid) && #[trigger] St::writes(
                mid,
                chunk_address(n - 1),
                chunk_bytes(blob, n - 1),
                true,
                after,
            );
        lemma_wrote_chunks_holds(contents, before, blob, n - 1, mid);
        lemma_chunks_tile(blob.len() as int, n - 1);
        let bytes = chunk_bytes(blob, n - 1);
        assert(contents(after) == overwrite(contents(mid), chunk_address(n - 1) as int, bytes));
        assert(chunk_address(n - 1) == SAVE_OFFSET + chunk_begin(n - 1));
        assert(chunks_len(blob.len() as int, n) == chunk_end(blob.len() as int, n - 1));
        let written = chunks_len(blob.len() as int, n);
        assert forall|i: int| 0 <= i < written implies contents(after)[SAVE_OFFSET + i]
            == blob[i] by {
            if i < chunk_begin(n - 1) {
                assert(contents(after)[SAVE_OFFSET + i] == contents(mid)[SAVE_OFFSET + i]);
            } else {
                assert(contents(after)[SAVE_OFFSET + i] == bytes[i - chunk_begin(n - 1)]);
            }
        }
    }
}

proof fn lemma_read_chunks_gives<St: SaveStore>(
    contents: spec_fn(St) -> Seq<u8>,
    before: St,
    buffer: Seq<u8>,
    n: int,
    after: St,
)
    requires
        is_byte_store::<St>(contents),
        0 <= n <= chunk_count(buffer.len() as int),
        SAVE_OFFSET + buffer.len() <= usize::MAX,
        read_chunks(before, buffer, n, after),
    ensures
        contents(after) == contents(before),
        n > 0 ==> SAVE_OFFSET + chunks_len(buffer.len() as int, n) <= contents(before).len(),
        forall|i: int|
            0 <= i < chunks_len(buffer.len() as int, n) ==> buffer[i] == contents(before)[SAVE_OFFSET
                + i],
    decreases n,
{
    if n > 0 {
        let mid = choose|mid: St|
            read_chunks(before, buffer, n - 1, mid) && #[trigger] St::reads(
                mid,
                chunk_address(n - 1),
                chunk_bytes(buffer, n - 1),
                true,
                after,
            );
        lemma_read_chunks_gives(contents, before, buffer, n - 1, mid);
        lemma_chunks_tile(buffer.len() as int, n - 1);
        let data = chunk_bytes(buffer, n - 1);
        assert(data == contents(mid).subrange(
            chunk_address(n - 1) as int,
            chunk_address(n - 1) + data.len(),
        ));
        assert(chunk_address(n - 1) == SAVE_OFFSET + chunk_begin(n - 1));
        assert(chunks_len(buffer.len() as int, n) == chunk_end(buffer.len() as int, n - 1));
        assert forall|i: int| 0 <= i < chunks_len(buffer.len() as int, n) implies buffer[i]
            == contents(before)[SAVE_OFFSET + i] by {
            if i >= chunk_begin(n - 1) {
                assert(buffer[i] == data[i - chunk_begin(n - 1)]);
            }
        }
    }
}

/// After a save that succeeded, a faithful store holds the blob at the save
/// offset.
pub proof fn lemma_saved_store_holds_blob<St: SaveStore>(
    contents: spec_fn(St) -> Seq<u8>,
    before: St,
    blob: Seq<u8>,
    after: St,
)
    requires
        is_byte_store::<St>(contents),
        SAVE_OFFSET + blob.len() <= usize::MAX,
        saved(before, blob, Ok::<(), TransferError>(()), after),
    ensures
        holds_blob(contents(after), blob),
{
    let n = chunk_count(blob.len() as int);
    let ready = choose|ready: St| #[trigger]
        St::prepares(before, SAVE_OFFSET, (SAVE_OFFSET + blob.len()) as usize, true, ready)
            && wrote_chunks(ready, blob, n, after);
    lemma_wrote_chunks_holds(contents, ready, blob, n, after);
    if n > 0 {
        lemma_chunks_tile(blob.len() as int, n - 1);
    }
    assert(contents(after).subrange(SAVE_OFFSET as int, SAVE_OFFSET + blob.len()) =~= blob);
}

/// A load that succeeded on a faithful store gave the bytes that the store
/// held at the save offset, and left the store as it was.
pub proof fn lemma_loaded_buffer_is_stored_blob<St: SaveStore>(
    contents: spec_fn(St) -> Seq<u8>,
    before: St,
    entry: Seq<u8>,
    buffer: Seq<u8>,
    after: St,
)
    requires
        is_byte_store::<St>(contents),
        SAVE_OFFSET + entry.len() <= usize::MAX,
        loaded(before, entry, Ok::<(), TransferError>(()), buffer, after),
    ensures
        SAVE_OFFSET + entry.len() <= contents(before).len(),
        buffer == stored_blob(contents(before), entry.len() as int),
        contents(after) == contents(before),
{
    let n = chunk_count(buffer.len() as int);
    lemma_read_chunks_gives(contents, before, buffer, n, after);
    if n > 0 {
        lemma_chunks_tile(buffer.len() as int, n - 1);
    }
    assert(buffer =~= stored_blob(contents(before), entry.len() as int));
}

/// On a faithful store, a save followed by a load gives back the blob that
/// was saved, byte for byte, whatever its length: a last chunk that is
/// shorter than a block is moved like any other.
pub proof fn lemma_save_then_load_round_trips<St: SaveStore>(
    contents: spec_fn(St) -> Seq<u8>,
    before: St,
    blob: Seq<u8>,
    between: St,
    entry: Seq<u8>,
    buffer: Seq<u8>,
    after: St,
)
    requires
        is_byte_store::<St>(contents),
        SAVE_OFFSET + blob.len() <= usize::MAX,
        entry.len() == blob.len(),
        saved(before, blob, Ok::<(), TransferError>(()), between),
        loaded(between, entry, Ok::<(), TransferError>(()), buffer, after),
    ensures
        buffer == blob,
{
    lemma_saved_store_holds_blob(contents, before, blob, between);
    lemma_loaded_buffer_is_stored_blob(contents, between, entry, buffer, after);
}

} // verus!
