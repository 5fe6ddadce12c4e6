//! Chunked transfer of a save blob to and from a persistent store.

use vstd::prelude::*;
use vstd::slice::slice_subrange;

verus! {

/// Address in the store at which a save blob begins.
pub const SAVE_OFFSET: usize = 0;

/// Largest number of bytes that one call moves to or from the store.
pub const FLASH_WRITE_BLOCKSIZE: usize = 512;

/// What a store reports when it cannot carry out a call.
#[derive(Clone, Copy, Debug, PartialEq, Eq, Structural)]
pub struct StoreFault;

/// A transfer that was given up, with the call at which the store failed.
#[derive(Clone, Copy, Debug, PartialEq, Eq, Structural)]
pub enum TransferError {
    /// The store refused to prepare the range.
    Prepare,
    /// The store failed to take the chunk that begins at address `offset`.
    Write { offset: usize },
    /// The store failed to give the chunk that begins at address `offset`.
    Read { offset: usize },
}

/// A persistent, byte-addressable store. It is asked to move at most one
/// block per call.
///
/// What a call may do to the store is a relation between the store before
/// and after it. An implementation states the relations that its methods
/// keep; one that states none is taken to allow any change.
pub trait SaveStore: Sized {
    /// Whether preparing the bytes from `start` up to `end` may take the
    /// store from `before` to `after` and succeed, if `ok`, or fail.
    open spec fn prepares(before: Self, start: usize, end: usize, ok: bool, after: Self) -> bool {
        true
    }

    /// Whether writing `bytes` at `offset` may take the store from `before`
    /// to `after` and succeed, if `ok`, or fail.
    open spec fn writes(
        before: Self,
        offset: usize,
        bytes: Seq<u8>,
        ok: bool,
        after: Self,
    ) -> bool {
        true
    }

    /// Whether reading at `offset` may give `data`, take the store from
    /// `before` to `after` and succeed, if `ok`, or fail.
    open spec fn reads(before: Self, offset: usize, data: Seq<u8>, ok: bool, after: Self) -> bool {
        true
    }

    /// Makes the bytes from `start` up to `end` ready to be written.
    fn prepare_write(&mut self, start: usize, end: usize) -> (r: Result<(), StoreFault>)
        requires
            start <= end,
        ensures
            Self::prepares(*old(self), start, end, r is Ok, *final(self)),
    ;

    /// Writes `bytes` at `offset`.
    fn write(&mut self, offset: usize, bytes: &[u8]) -> (r: Result<(), StoreFault>)
        requires
            bytes@.len() <= FLASH_WRITE_BLOCKSIZE,
        ensures
            Self::writes(*old(self), offset, bytes@, r is Ok, *final(self)),
    ;

    /// Fills `buffer` with the bytes that begin at `offset`.
    fn read(&mut self, offset: usize, buffer: &mut [u8]) -> (r: Result<(), StoreFault>)
        requires
            old(buffer)@.len() <= FLASH_WRITE_BLOCKSIZE,
        ensures
            final(buffer)@.len() == old(buffer)@.len(),
            Self::reads(*old(self), offset, final(buffer)@, r is Ok, *final(self)),
    ;
}

/// Length of the next chunk when `remaining` bytes are still to be moved.
pub open spec fn spec_chunk_len(remaining: int) -> int {
    if remaining > FLASH_WRITE_BLOCKSIZE {
        FLASH_WRITE_BLOCKSIZE as int
    } else {
        remaining
    }
}

/// Length of the next chunk when `remaining` bytes are still to be moved: a
/// full block, or all that is left if that is less.
pub fn chunk_len(remaining: usize) -> (len: usize)
    ensures
        len == spec_chunk_len(remaining as int),
{
    if remaining > FLASH_WRITE_BLOCKSIZE {
        FLASH_WRITE_BLOCKSIZE
    } else {
        remaining
    }
}

/// Number of chunks in which `len` bytes are moved.
pub open spec fn chunk_count(len: int) -> int {
    (len + FLASH_WRITE_BLOCKSIZE - 1) / (FLASH_WRITE_BLOCKSIZE as int)
}

/// Index in a blob at which chunk `k` begins.
pub open spec fn chunk_begin(k: int) -> int {
    k * FLASH_WRITE_BLOCKSIZE
}

/// Index in a blob of `len` bytes at which chunk `k` ends.
pub open spec fn chunk_end(len: int, k: int) -> int {
    chunk_begin(k) + spec_chunk_len(len - chunk_begin(k))
}

/// Address in the store at which chunk `k` begins.
pub open spec fn chunk_address(k: int) -> usize {
    (SAVE_OFFSET + chunk_begin(k)) as usize
}

/// Number of the chunk that begins at address `offset`.
pub open spec fn chunk_index(offset: int) -> int {
    (offset - SAVE_OFFSET) / (FLASH_WRITE_BLOCKSIZE as int)
}

/// The bytes of chunk `k` of `blob`.
pub open spec fn chunk_bytes(blob: Seq<u8>, k: int) -> Seq<u8> {
    blob.subrange(chunk_begin(k), chunk_end(blob.len() as int, k))
}

/// Whether `offset` is the address of a chunk of a blob of `len` bytes.
pub open spec fn is_chunk_address(offset: usize, len: int) -> bool {
    &&& SAVE_OFFSET <= offset < SAVE_OFFSET + len
    &&& (offset - SAVE_OFFSET) % (FLASH_WRITE_BLOCKSIZE as int) == 0
}

/// The chunks of a blob lie end to end, none is longer than a block, none
/// but the last is shorter, and the last ends where the blob ends.
pub proof fn lemma_chunks_tile(len: int, k: int)
    requires
        0 <= len,
        0 <= k < chunk_count(len),
    ensures
        chunk_begin(k) < chunk_end(len, k) <= len,
        chunk_end(len, k) - chunk_begin(k) <= FLASH_WRITE_BLOCKSIZE,
        k + 1 < chunk_count(len) ==> chunk_end(len, k) == chunk_begin(k + 1) && chunk_end(len, k)
            - chunk_begin(k) == FLASH_WRITE_BLOCKSIZE,
        k + 1 == chunk_count(len) ==> chunk_end(len, k) == len,
{
}

/// Whether the successful writes of the first `n` chunks of `blob`, in
/// ascending order, may take the store from `before` to `after`.
pub open spec fn wrote_chunks<St: SaveStore>(before: St, blob: Seq<u8>, n: int, after: St) -> bool
    decreases n,
{
    if n <= 0 {
        before == after
    } else {
        exists|mid: St|
            wrote_chunks(before, blob, n - 1, mid) && #[trigger] St::writes(
                mid,
                chunk_address(n - 1),
                chunk_bytes(blob, n - 1),
                true,
                after,
            )
    }
}

/// Whether preparing the range of `blob` and then writing its first `n`
/// chunks, all with success, may take the store from `before` to `after`.
pub open spec fn prepared_and_wrote<St: SaveStore>(
    before: St,
    blob: Seq<u8>,
    n: int,
    after: St,
) -> bool {
    exists|ready: St| #[trigger]
        St::prepares(before, SAVE_OFFSET, (SAVE_OFFSET + blob.len()) as usize, true, ready)
            && wrote_chunks(ready, blob, n, after)
}

/// Whether saving `blob` may take the store from `before` to `after` and end
/// in `r`: one preparation of the whole range, then the writes of the chunks
/// in ascending order, up to the first call that fails, which `r` names.
pub open spec fn saved<St: SaveStore>(
    before: St,
    blob: Seq<u8>,
    r: Result<(), TransferError>,
    after: St,
) -> bool {
    match r {
        Ok(_) => prepared_and_wrote(before, blob, chunk_count(blob.len() as int), after),
        Err(TransferError::Prepare) => St::prepares(
            before,
            SAVE_OFFSET,
            (SAVE_OFFSET + blob.len()) as usize,
            false,
            after,
        ),
        Err(TransferError::Write { offset }) => {
            &&& is_chunk_address(offset, blob.len() as int)
            &&& exists|mid: St|
                prepared_and_wrote(before, blob, chunk_index(offset as int), mid)
                    && #[trigger] St::writes(
                    mid,
                    offset,
                    chunk_bytes(blob, chunk_index(offset as int)),
                    false,
                    after,
                )
        },
        Err(TransferError::Read { .. }) => false,
    }
}

/// Whether successful reads of the first `n` chunks, in ascending order, may
/// take the store from `before` to `after` and give the first `n` chunks of
/// `buffer`.
pub open spec fn read_chunks<St: SaveStore>(before: St, buffer: Seq<u8>, n: int, after: St) -> bool
    decreases n,
{
    if n <= 0 {
        before == after
    } else {
        exists|mid: St|
            read_chunks(before, buffer, n - 1, mid) && #[trigger] St::reads(
                mid,
                chunk_address(n - 1),
                chunk_bytes(buffer, n - 1),
                true,
                after,
            )
    }
}

/// Whether loading into a buffer that held `entry` may take the store from
/// `before` to `after`, leave `buffer` and end in `r`: the reads of the chunks
/// in ascending order, up to the first that fails, which `r` names. What lies
/// behind a chunk that failed is as it was.
pub open spec fn loaded<St: SaveStore>(
    before: St,
    entry: Seq<u8>,
    r: Result<(), TransferError>,
    buffer: Seq<u8>,
    after: St,
) -> bool {
    let len = entry.len() as int;
    buffer.len() == len && match r {
        Ok(_) => read_chunks(before, buffer, chunk_count(len), after),
        Err(TransferError::Read { offset }) => {
            let failed = chunk_index(offset as int);
            &&& is_chunk_address(offset, len)
            &&& buffer.subrange(chunk_end(len, failed), len) == entry.subrange(
                chunk_end(len, failed),
                len,
            )
            &&& exists|mid: St|
                read_chunks(before, buffer, failed, mid) && #[trigger] St::reads(
                    mid,
                    offset,
                    chunk_bytes(buffer, failed),
                    false,
                    after,
                )
        },
        Err(_) => false,
    }
}

/// The reads that gave the first `n` chunks of one buffer gave those of any
/// buffer of the same length that begins with the same chunks.
proof fn lemma_read_chunks_of_prefix<St: SaveStore>(
    before: St,
    buffer: Seq<u8>,
    other: Seq<u8>,
    n: int,
    after: St,
)
    requires
        0 <= n <= chunk_count(buffer.len() as int),
        buffer.len() == other.len(),
        forall|i: int| 0 <= i < chunk_begin(n) && i < buffer.len() ==> buffer[i] == other[i],
        read_chunks(before, buffer, n, after),
    ensures
        read_chunks(before, other, n, after),
    decreases n,
{
    if n > 0 {
        let mid = choose|mid: St|
            read_chunks(before, buffer, n - 1, mid) && #[trigger] St::reads(
                mid,
                chunk_address(n - 1),
                chunk_bytes(buffer, n - 1),
                true,
                after,
            );
        lemma_read_chunks_of_prefix(before, buffer, other, n - 1, mid);
        lemma_chunks_tile(buffer.len() as int, n - 1);
        assert(chunk_bytes(buffer, n - 1) =~= chunk_bytes(other, n - 1));
    }
}

/// One more chunk written with success extends the chunks written.
proof fn lemma_wrote_next<St: SaveStore>(before: St, blob: Seq<u8>, k: int, mid: St, after: St)
    requires
        0 <= k,
        wrote_chunks(before, blob, k, mid),
        St::writes(mid, chunk_address(k), chunk_bytes(blob, k), true, after),
    ensures
        wrote_chunks(before, blob, k + 1, after),
{
    assert(wrote_chunks(before, blob, k + 1 - 1, mid) && St::writes(
        mid,
        chunk_address(k + 1 - 1),
        chunk_bytes(blob, k + 1 - 1),
        true,
        after,
    ));
}

/// One more chunk read with success extends the chunks read.
proof fn lemma_read_next<St: SaveStore>(before: St, buffer: Seq<u8>, k: int, mid: St, after: St)
    requires
        0 <= k,
        read_chunks(before, buffer, k, mid),
        St::reads(mid, chunk_address(k), chunk_bytes(buffer, k), true, after),
    ensures
        read_chunks(before, buffer, k + 1, after),
{
    assert(read_chunks(before, buffer, k + 1 - 1, mid) && St::reads(
        mid,
        chunk_address(k + 1 - 1),
        chunk_bytes(buffer, k + 1 - 1),
        true,
        after,
    ));
}

/// A save whose preparation and first `k` chunks succeeded and whose next
/// write failed ends in the error that names that write.
proof fn lemma_save_failed_at<St: SaveStore>(before: St, blob: Seq<u8>, k: int, mid: St, after: St)
    requires
        0 <= k < chunk_count(blob.len() as int),
        SAVE_OFFSET + blob.len() <= usize::MAX,
        prepared_and_wrote(before, blob, k, mid),
        St::writes(mid, chunk_address(k), chunk_bytes(blob, k), false, after),
    ensures
        saved(
            before,
            blob,
            Err::<(), TransferError>(TransferError::Write { offset: chunk_address(k) }),
            after,
        ),
{
    let offset = chunk_address(k);
    lemma_chunk_address(blob.len() as int, k);
    assert(prepared_and_wrote(before, blob, chunk_index(offset as int), mid) && St::writes(
        mid,
        offset,
        chunk_bytes(blob, chunk_index(offset as int)),
        false,
        after,
    ));
}

/// A load whose first `k` chunks were read and whose next read failed ends
/// in the error that names that read.
proof fn lemma_load_failed_at<St: SaveStore>(
    before: St,
    entry: Seq<u8>,
    buffer: Seq<u8>,
    k: int,
    mid: St,
    after: St,
)
    requires
        0 <= k < chunk_count(entry.len() as int),
        SAVE_OFFSET + entry.len() <= usize::MAX,
        buffer.len() == entry.len(),
        buffer.subrange(chunk_end(entry.len() as int, k), entry.len() as int) == entry.subrange(
            chunk_end(entry.len() as int, k),
            entry.len() as int,
        ),
        read_chunks(before, buffer, k, mid),
        St::reads(mid, chunk_address(k), chunk_bytes(buffer, k), false, after),
    ensures
        loaded(
            before,
            entry,
            Err::<(), TransferError>(TransferError::Read { offset: chunk_address(k) }),
            buffer,
            after,
        ),
{
    let offset = chunk_address(k);
    lemma_chunk_address(entry.len() as int, k);
    assert(read_chunks(before, buffer, chunk_index(offset as int), mid) && St::reads(
        mid,
        offset,
        chunk_bytes(buffer, chunk_index(offset as int)),
        false,
        after,
    ));
}

/// Address and index of a chunk determine each other.
proof fn lemma_chunk_address(len: int, k: int)
    requires
        0 <= k < chunk_count(len),
        0 <= len,
        SAVE_OFFSET + len <= usize::MAX,
    ensures
        chunk_address(k) == SAVE_OFFSET + chunk_begin(k),
        chunk_index(chunk_address(k) as int) == k,
        is_chunk_address(chunk_address(k), len),
{
}

/// Writes `blob` to the store at the save offset: one preparation of the whole
/// range, then one write per chunk, in ascending order. Stops at the first
/// call that fails and reports it.
pub fn save_blob<St: SaveStore>(store: &mut St, blob: &[u8]) -> (r: Result<(), TransferError>)
    ensures
        saved(*old(store), blob@, r, *final(store)),
{
    let end: usize = SAVE_OFFSET + blob.len();
    assert(end == (SAVE_OFFSET + blob@.len()) as usize);
    if store.prepare_write(SAVE_OFFSET, end).is_err() {
        return Err(TransferError::Prepare);
    }
    let ghost ready = *store;
    let mut current: usize = SAVE_OFFSET;
    let ghost mut k: int = 0;
    while current != end
        invariant
            SAVE_OFFSET <= current <= end,
            end == (SAVE_OFFSET + blob@.len()) as usize,
            end == SAVE_OFFSET + blob@.len(),
            0 <= k <= chunk_count(blob@.len() as int),
            current < end ==> current == SAVE_OFFSET + chunk_begin(k),
            current == end ==> k == chunk_count(blob@.len() as int),
            St::prepares(*old(store), SAVE_OFFSET, end, true, ready),
            wrote_chunks(ready, blob@, k, *store),
        decreases end - current,
    {
        let cur_len: usize = chunk_len(end - current);
        let chunk = slice_subrange(blob, current - SAVE_OFFSET, current - SAVE_OFFSET + cur_len);
        let ghost mid = *store;
        proof {
            lemma_chunk_address(blob@.len() as int, k);
            assert(chunk@ =~= chunk_bytes(blob@, k));
        }
        if store.write(current, chunk).is_err() {
            proof {
                assert(prepared_and_wrote(*old(store), blob@, k, mid));
                lemma_save_failed_at(*old(store), blob@, k, mid, *store);
            }
            return Err(TransferError::Write { offset: current });
        }
        proof {
            lemma_wrote_next(ready, blob@, k, mid, *store);
            k = k + 1;
        }
        current = current + cur_len;
    }
    assert(prepared_and_wrote(*old(store), blob@, k, *store));
    Ok(())
}

/// Fills `buffer` from the store, beginning at the save offset: one read per
/// chunk, in ascending order. Stops at the first read that fails and reports
/// it.
pub fn load_blob<St: SaveStore>(store: &mut St, buffer: &mut Vec<u8>) -> (r: Result<
    (),
    TransferError,
>)
    ensures
        loaded(*old(store), old(buffer)@, r, final(buffer)@, *final(store)),
{
    let len: usize = buffer.len();
    let mut current: usize = 0;
    let ghost mut k: int = 0;
    while current != len
        invariant
            current <= len,
            len == buffer@.len(),
            len == old(buffer)@.len(),
            0 <= k <= chunk_count(len as int),
            current < len ==> current == chunk_begin(k),
            current == len ==> k == chunk_count(len as int),
            buffer@.subrange(current as int, len as int) == old(buffer)@.subrange(
                current as int,
                len as int,
            ),
            read_chunks(*old(store), buffer@, k, *store),
        decreases len - current,
    {
        let cur_len: usize = chunk_len(len - current);
        let ghost held = buffer@;
        let ghost mid = *store;
        let (_, tail) = buffer.as_mut_slice().split_at_mut(current);
        let (chunk, _) = tail.split_at_mut(cur_len);
        let outcome = store.read(SAVE_OFFSET + current, chunk);
        proof {
            let next = current + cur_len;
            lemma_chunk_address(len as int, k);
            assert(chunk_bytes(buffer@, k) =~= chunk@);
            assert(buffer@.subrange(next, len as int) =~= old(buffer)@.subrange(next, len as int))
                by {
                let entry = old(buffer)@;
                assert forall|i: int| next <= i < len implies buffer@[i] == entry[i] by {
                    assert(held.subrange(current as int, len as int)[i - current]
                        == entry.subrange(current as int, len as int)[i - current]);
                }
            }
            lemma_read_chunks_of_prefix(*old(store), held, buffer@, k, mid);
        }
        if outcome.is_err() {
            proof {
                lemma_load_failed_at(*old(store), old(buffer)@, buffer@, k, mid, *store);
            }
            return Err(TransferError::Read { offset: SAVE_OFFSET + current });
        }
        proof {
            lemma_read_next(*old(store), buffer@, k, mid, *store);
            k = k + 1;
        }
        current = current + cur_len;
    }
    Ok(())
}

} // verus!
