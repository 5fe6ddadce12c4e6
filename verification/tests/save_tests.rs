use gba_core::save::{
    chunk_len, load_blob, save_blob, SaveStore, StoreFault, TransferError, FLASH_WRITE_BLOCKSIZE,
    SAVE_OFFSET,
};

#[derive(Debug, Clone, PartialEq, Eq)]
enum Call {
    Prepare(usize, usize),
    Write(usize, usize),
    Read(usize, usize),
}

struct MemStore {
    bytes: Vec<u8>,
    calls: Vec<Call>,
    fail_prepare: bool,
    fail_write: Option<usize>,
    fail_read: Option<usize>,
    writes: usize,
    reads: usize,
}

impl MemStore {
    fn new(size: usize) -> MemStore {
        MemStore {
            bytes: vec![0xEE; size],
            calls: Vec::new(),
            fail_prepare: false,
            fail_write: None,
            fail_read: None,
            writes: 0,
            reads: 0,
        }
    }
}

impl SaveStore for MemStore {
    fn prepare_write(&mut self, start: usize, end: usize) -> Result<(), StoreFault> {
        self.calls.push(Call::Prepare(start, end));
        if self.fail_prepare || end > self.bytes.len() {
            return Err(StoreFault);
        }
        for b in &mut self.bytes[start..end] {
            *b = 0xFF;
        }
        Ok(())
    }

    fn write(&mut self, offset: usize, bytes: &[u8]) -> Result<(), StoreFault> {
        self.calls.push(Call::Write(offset, bytes.len()));
        let index = self.writes;
        self.writes += 1;
        if self.fail_write == Some(index) || offset + bytes.len() > self.bytes.len() {
            return Err(StoreFault);
        }
        self.bytes[offset..offset + bytes.len()].copy_from_slice(bytes);
        Ok(())
    }

    fn read(&mut self, offset: usize, buffer: &mut [u8]) -> Result<(), StoreFault> {
        self.calls.push(Call::Read(offset, buffer.len()));
        let index = self.reads;
        self.reads += 1;
        if self.fail_read == Some(index) || offset + buffer.len() > self.bytes.len() {
            return Err(StoreFault);
        }
        buffer.copy_from_slice(&self.bytes[offset..offset + buffer.len()]);
        Ok(())
    }
}

fn pattern(len: usize) -> Vec<u8> {
    (0..len).map(|i| (i * 7 + 3) as u8).collect()
}

#[test]
fn constants() {
    assert_eq!(SAVE_OFFSET, 0);
    assert_eq!(FLASH_WRITE_BLOCKSIZE, 512);
}

#[test]
fn chunk_len_is_a_block_or_the_rest() {
    assert_eq!(chunk_len(0), 0);
    assert_eq!(chunk_len(1), 1);
    assert_eq!(chunk_len(511), 511);
    assert_eq!(chunk_len(512), 512);
    assert_eq!(chunk_len(513), 512);
    assert_eq!(chunk_len(usize::MAX), 512);
}

#[test]
fn save_then_load_round_trips_with_a_short_last_chunk() {
    let blob = pattern(1000);
    let mut store = MemStore::new(4096);
    assert_eq!(save_blob(&mut store, &blob), Ok(()));
    assert_eq!(
        store.calls,
        vec![Call::Prepare(0, 1000), Call::Write(0, 512), Call::Write(512, 488)]
    );
    assert_eq!(&store.bytes[..1000], &blob[..]);
    let mut loaded = vec![0u8; 1000];
    assert_eq!(load_blob(&mut store, &mut loaded), Ok(()));
    assert_eq!(loaded, blob);
    assert_eq!(&store.calls[3..], &[Call::Read(0, 512), Call::Read(512, 488)]);
}

#[test]
fn round_trip_at_many_lengths() {
    for len in [0usize, 1, 2, 511, 512, 513, 1023, 1024, 1025, 1300, 2048, 3000] {
        let blob = pattern(len);
        let mut store = MemStore::new(4096);
        assert_eq!(save_blob(&mut store, &blob), Ok(()));
        let mut loaded = vec![0xAAu8; len];
        assert_eq!(load_blob(&mut store, &mut loaded), Ok(()));
        assert_eq!(loaded, blob);
        let chunks = (len + 511) / 512;
        assert_eq!(store.writes, chunks);
        assert_eq!(store.reads, chunks);
        // Nothing past the blob was written after the preparation.
        assert!(store.bytes[len..].iter().all(|b| *b == 0xEE));
    }
}

#[test]
fn chunks_are_full_blocks_but_the_last() {
    let blob = pattern(1300);
    let mut store = MemStore::new(2048);
    assert_eq!(save_blob(&mut store, &blob), Ok(()));
    assert_eq!(
        store.calls,
        vec![
            Call::Prepare(0, 1300),
            Call::Write(0, 512),
            Call::Write(512, 512),
            Call::Write(1024, 276)
        ]
    );
}

#[test]
fn empty_blob_is_prepared_and_nothing_is_written() {
    let mut store = MemStore::new(16);
    assert_eq!(save_blob(&mut store, &[]), Ok(()));
    assert_eq!(store.calls, vec![Call::Prepare(0, 0)]);
    let mut loaded = Vec::new();
    assert_eq!(load_blob(&mut store, &mut loaded), Ok(()));
    assert_eq!(store.calls.len(), 1);
}

#[test]
fn failed_preparation_stops_the_save() {
    let blob = pattern(600);
    let mut store = MemStore::new(4096);
    store.fail_prepare = true;
    assert_eq!(save_blob(&mut store, &blob), Err(TransferError::Prepare));
    assert_eq!(store.calls, vec![Call::Prepare(0, 600)]);
    assert!(store.bytes.iter().all(|b| *b == 0xEE));
}

#[test]
fn blob_larger_than_the_store_is_refused() {
    let blob = pattern(600);
    let mut store = MemStore::new(512);
    assert_eq!(save_blob(&mut store, &blob), Err(TransferError::Prepare));
    assert_eq!(store.writes, 0);
}

#[test]
fn failed_write_stops_the_save_at_that_chunk() {
    let blob = pattern(1300);
    let mut store = MemStore::new(4096);
    store.fail_write = Some(1);
    assert_eq!(save_blob(&mut store, &blob), Err(TransferError::Write { offset: 512 }));
    assert_eq!(
        store.calls,
        vec![Call::Prepare(0, 1300), Call::Write(0, 512), Call::Write(512, 512)]
    );
    assert_eq!(&store.bytes[..512], &blob[..512]);
}

#[test]
fn failed_first_write_reports_offset_zero() {
    let blob = pattern(10);
    let mut store = MemStore::new(4096);
    store.fail_write = Some(0);
    assert_eq!(save_blob(&mut store, &blob), Err(TransferError::Write { offset: 0 }));
}

#[test]
fn failed_read_stops_the_load_at_that_chunk() {
    let blob = pattern(1300);
    let mut store = MemStore::new(4096);
    assert_eq!(save_blob(&mut store, &blob), Ok(()));
    store.fail_read = Some(1);
    let mut loaded = vec![0x55u8; 1300];
    assert_eq!(load_blob(&mut store, &mut loaded), Err(TransferError::Read { offset: 512 }));
    assert_eq!(store.reads, 2);
    assert_eq!(&loaded[..512], &blob[..512]);
    assert!(loaded[1024..].iter().all(|b| *b == 0x55));
    assert_eq!(loaded.len(), 1300);
}

#[test]
fn load_from_a_store_that_is_too_small_fails() {
    let mut store = MemStore::new(700);
    let mut loaded = vec![0u8; 1000];
    assert_eq!(load_blob(&mut store, &mut loaded), Err(TransferError::Read { offset: 512 }));
}

#[test]
fn load_does_not_change_the_store() {
    let blob = pattern(777);
    let mut store = MemStore::new(1024);
    assert_eq!(save_blob(&mut store, &blob), Ok(()));
    let before = store.bytes.clone();
    let mut loaded = vec![0u8; 777];
    assert_eq!(load_blob(&mut store, &mut loaded), Ok(()));
    assert_eq!(store.bytes, before);
}
