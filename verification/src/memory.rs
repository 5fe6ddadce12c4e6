//! A store kept in memory.

use crate::faithful::{
    holds_blob, is_byte_store, lemma_loaded_buffer_is_stored_blob, lemma_saved_store_holds_blob,
    overwrite, stored_blob,
};
use crate::save::{
    chunk_address, chunk_begin, chunk_bytes, chunk_count, chunk_index, lemma_chunks_tile, loaded,
    prepared_and_wrote, read_chunks, saved, wrote_chunks, SaveStore, StoreFault, TransferError,
    SAVE_OFFSET,
};
use vstd::prelude::*;

verus! {

/// A store whose bytes are kept in memory: it needs no preparation, and it
/// fails a call exactly when the call reaches past its end.
pub struct MemoryStore {
    bytes: Vec<u8>,
}

impl MemoryStore {
    /// The bytes that the store holds, by address.
    pub closed spec fn view(&self) -> Seq<u8> {
        self.bytes@
    }

    /// A store of `size` bytes, each of them `fill`.
    pub fn new(size: usize, fill: u8) -> (store: MemoryStore)
        ensures
            store@.len() == size,
            forall|i: int| 0 <= i < size ==> store@[i] == fill,
    {
        MemoryStore { bytes: vec![fill; size] }
    }

    /// The bytes that the store holds, by address.
    pub fn bytes(&self) -> (bytes: &[u8])
        ensures
            bytes@ == self@,
    {
        self.bytes.as_slice()
    }
}

impl SaveStore for MemoryStore {
    open spec fn prepares(before: Self, start: usize, end: usize, ok: bool, after: Self) -> bool {
        after == before && ok == (end <= before@.len())
    }

    open spec fn writes(
        before: Self,
        offset: usize,
        bytes: Seq<u8>,
        ok: bool,
        after: Self,
    ) -> bool {
        &&& ok == (offset + bytes.len() <= before@.len())
        &&& ok ==> after@ == overwrite(before@, offset as int, bytes)
        &&& !ok ==> after == before
    }

    open spec fn reads(before: Self, offset: usize, data: Seq<u8>, ok: bool, after: Self) -> bool {
        &&& after == before
        &&& ok == (offset + data.len() <= before@.len())
        &&& ok ==> data == before@.subrange(offset as int, offset + data.len())
    }

    fn prepare_write(&mut self, start: usize, end: usize) -> (r: Result<(), StoreFault>) {
        if end <= self.bytes.len() {
            Ok(())
        } else {
            Err(StoreFault)
        }
    }

    fn write(&mut self, offset: usize, bytes: &[u8]) -> (r: Result<(), StoreFault>) {
        let size: usize = self.bytes.len();
        let len: usize = bytes.len();
        if offset > size || len > size - offset {
            return Err(StoreFault);
        }
        let mut i: usize = 0;
        while i < len
            invariant
                i <= len,
                len == bytes@.len(),
                offset + len <= size,
                size == self@.len(),
                size == old(self)@.len(),
                self@ == overwrite(old(self)@, offset as int, bytes@.subrange(0, i as int)),
            decreases len - i,
        {
            let at: usize = offset + i;
            let ghost held = self@;
            self.bytes.set(at, bytes[i]);
            assert(self@ =~= overwrite(old(self)@, offset as int, bytes@.subrange(0, i + 1))) by {
                let target = overwrite(old(self)@, offset as int, bytes@.subrange(0, i + 1));
                assert(self@.len() == target.len());
                assert forall|j: int| 0 <= j < size implies self@[j] == target[j] by {
                    if j != at {
                        assert(self@[j] == held[j]);
                    }
                }
            }
            i = i + 1;
        }
        assert(bytes@.subrange(0, len as int) =~= bytes@);
        Ok(())
    }

    fn read(&mut self, offset: usize, buffer: &mut [u8]) -> (r: Result<(), StoreFault>) {
        let size: usize = self.bytes.len();
        let len: usize = buffer.len();
        if offset > size || len > size - offset {
            return Err(StoreFault);
        }
        let mut i: usize = 0;
        while i < len
            invariant
                i <= len,
                len == buffer@.len(),
                len == old(buffer)@.len(),
                offset + len <= size,
                size == self@.len(),
                *self == *old(self),
                buffer@.subrange(0, i as int) == self@.subrange(offset as int, offset + i),
            decreases len - i,
        {
            let at: usize = offset + i;
            let ghost held = buffer@;
            buffer[i] = self.bytes[at];
            assert(buffer@.subrange(0, i + 1) =~= self@.subrange(offset as int, offset + i + 1))
                by {
                assert forall|j: int| 0 <= j < i + 1 implies buffer@[j] == self@[offset + j] by {
                    if j < i {
                        assert(held.subrange(0, i as int)[j] == self@.subrange(
                            offset as int,
                            offset + i,
                        )[j]);
                    }
                }
            }
            i = i + 1;
        }
        assert(buffer@.subrange(0, len as int) =~= buffer@);
        Ok(())
    }
}

/// A store in memory keeps bytes faithfully.
pub proof fn lemma_memory_store_is_faithful()
    ensures
        is_byte_store::<MemoryStore>(|store: MemoryStore| store@),
{
}

proof fn lemma_memory_wrote_chunks(before: MemoryStore, blob: Seq<u8>, n: int, after: MemoryStore)
    requires
        wrote_chunks(before, blob, n, after),
    ensures
        after@.len() == before@.len(),
    decreases n,
{
    if n > 0 {
        let mid = choose|mid: MemoryStore|
            wrote_chunks(before, blob, n - 1, mid) && #[trigger] MemoryStore::writes(
                mid,
                chunk_address(n - 1),
                chunk_bytes(blob, n - 1),
                true,
                after,
            );
        lemma_memory_wrote_chunks(before, blob, n - 1, mid);
    }
}

proof fn lemma_memory_read_chunks(before: MemoryStore, buffer: Seq<u8>, n: int, after: MemoryStore)
    requires
        read_chunks(before, buffer, n, after),
    ensures
        after == before,
    decreases n,
{
    if n > 0 {
        let mid = choose|mid: MemoryStore|
            read_chunks(before, buffer, n - 1, mid) && #[trigger] MemoryStore::reads(
                mid,
                chunk_address(n - 1),
                chunk_bytes(buffer, n - 1),
                true,
                after,
            );
        lemma_memory_read_chunks(before, buffer, n - 1, mid);
    }
}

/// On a store in memory a save succeeds exactly if the blob fits in the
/// store, and then the store holds the blob; a blob that does not fit is
/// refused at the preparation and the store stays as it was.
pub proof fn lemma_memory_save(
    before: MemoryStore,
    blob: Seq<u8>,
    r: Result<(), TransferError>,
    after: MemoryStore,
)
    requires
        SAVE_OFFSET + blob.len() <= usize::MAX,
        saved(before, blob, r, after),
    ensures
        r is Ok <==> SAVE_OFFSET + blob.len() <= before@.len(),
        r is Ok ==> holds_blob(after@, blob) && after@.len() == before@.len(),
        r is Err ==> r == Err::<(), TransferError>(TransferError::Prepare) && after == before,
{
    let contents = |store: MemoryStore| store@;
    match r {
        Ok(_) => {
            lemma_saved_store_holds_blob(contents, before, blob, after);
            let ready = choose|ready: MemoryStore| #[trigger]
                MemoryStore::prepares(
                    before,
                    SAVE_OFFSET,
                    (SAVE_OFFSET + blob.len()) as usize,
                    true,
                    ready,
                ) && wrote_chunks(ready, blob, chunk_count(blob.len() as int), after);
            lemma_memory_wrote_chunks(ready, blob, chunk_count(blob.len() as int), after);
        },
        Err(TransferError::Write { offset }) => {
            let k = chunk_index(offset as int);
            let mid = choose|mid: MemoryStore|
                prepared_and_wrote(before, blob, k, mid) && #[trigger] MemoryStore::writes(
                    mid,
                    offset,
                    chunk_bytes(blob, k),
                    false,
                    after,
                );
            let ready = choose|ready: MemoryStore| #[trigger]
                MemoryStore::prepares(
                    before,
                    SAVE_OFFSET,
                    (SAVE_OFFSET + blob.len()) as usize,
                    true,
                    ready,
                ) && wrote_chunks(ready, blob, k, mid);
            lemma_memory_wrote_chunks(ready, blob, k, mid);
            lemma_chunks_tile(blob.len() as int, k);
            assert(offset == SAVE_OFFSET + chunk_begin(k));
            assert(!MemoryStore::writes(mid, offset, chunk_bytes(blob, k), false, after));
        },
        _ => {},
    }
}

/// On a store in memory a load succeeds exactly if the store holds as many
/// bytes as the buffer asks for, and then the buffer holds them; the store
/// stays as it was in either case.
pub proof fn lemma_memory_load(
    before: MemoryStore,
    entry: Seq<u8>,
    r: Result<(), TransferError>,
    buffer: Seq<u8>,
    after: MemoryStore,
)
    requires
        SAVE_OFFSET + entry.len() <= usize::MAX,
        loaded(before, entry, r, buffer, after),
    ensures
        after == before,
        r is Ok <==> SAVE_OFFSET + entry.len() <= before@.len(),
        r is Ok ==> buffer == stored_blob(before@, entry.len() as int),
{
    let contents = |store: MemoryStore| store@;
    match r {
        Ok(_) => {
            lemma_loaded_buffer_is_stored_blob(contents, before, entry, buffer, after);
            lemma_memory_read_chunks(before, buffer, chunk_count(buffer.len() as int), after);
        },
        Err(TransferError::Read { offset }) => {
            let k = chunk_index(offset as int);
            let mid = choose|mid: MemoryStore|
                read_chunks(before, buffer, k, mid) && #[trigger] MemoryStore::reads(
                    mid,
                    offset,
                    chunk_bytes(buffer, k),
                    false,
                    after,
                );
            lemma_memory_read_chunks(before, buffer, k, mid);
            lemma_chunks_tile(buffer.len() as int, k);
            assert(offset == SAVE_OFFSET + chunk_begin(k));
        },
        _ => {},
    }
}

} // verus!
