use gba_core::memory::MemoryStore;
use gba_core::save::{load_blob, save_blob, SaveStore, StoreFault, TransferError};

fn pattern(len: usize) -> Vec<u8> {
    (0..len).map(|i| (i * 13 + 5) as u8).collect()
}

#[test]
fn new_store_is_filled() {
    let store = MemoryStore::new(5, 0xFF);
    assert_eq!(store.bytes(), &[0xFF; 5]);
    assert!(MemoryStore::new(0, 1).bytes().is_empty());
}

#[test]
fn write_replaces_the_bytes_in_place() {
    let mut store = MemoryStore::new(8, 0);
    assert_eq!(store.write(2, &[1, 2, 3]), Ok(()));
    assert_eq!(store.bytes(), &[0, 0, 1, 2, 3, 0, 0, 0]);
    assert_eq!(store.write(5, &[7, 8, 9]), Ok(()));
    assert_eq!(store.bytes(), &[0, 0, 1, 2, 3, 7, 8, 9]);
    assert_eq!(store.write(8, &[]), Ok(()));
}

#[test]
fn write_past_the_end_fails_and_changes_nothing() {
    let mut store = MemoryStore::new(4, 9);
    assert_eq!(store.write(2, &[1, 2, 3]), Err(StoreFault));
    assert_eq!(store.write(5, &[]), Err(StoreFault));
    assert_eq!(store.write(usize::MAX, &[1]), Err(StoreFault));
    assert_eq!(store.bytes(), &[9, 9, 9, 9]);
}

#[test]
fn read_gives_the_bytes_at_the_offset() {
    let mut store = MemoryStore::new(6, 0);
    store.write(0, &[10, 11, 12, 13, 14, 15]).unwrap();
    let mut buffer = [0u8; 3];
    assert_eq!(store.read(2, &mut buffer), Ok(()));
    assert_eq!(buffer, [12, 13, 14]);
    assert_eq!(store.read(4, &mut buffer), Err(StoreFault));
    assert_eq!(store.bytes(), &[10, 11, 12, 13, 14, 15]);
}

#[test]
fn preparation_succeeds_within_the_store() {
    let mut store = MemoryStore::new(6, 3);
    assert_eq!(store.prepare_write(0, 6), Ok(()));
    assert_eq!(store.prepare_write(0, 7), Err(StoreFault));
    assert_eq!(store.bytes(), &[3; 6]);
}

#[test]
fn memory_round_trip_at_many_lengths() {
    for len in [0usize, 1, 511, 512, 513, 1000, 1024, 1300, 4096] {
        let blob = pattern(len);
        let mut store = MemoryStore::new(4096, 0xFF);
        assert_eq!(save_blob(&mut store, &blob), Ok(()));
        assert_eq!(&store.bytes()[..len], &blob[..]);
        assert!(store.bytes()[len..].iter().all(|b| *b == 0xFF));
        let mut loaded = vec![0u8; len];
        assert_eq!(load_blob(&mut store, &mut loaded), Ok(()));
        assert_eq!(loaded, blob);
    }
}

#[test]
fn blob_that_does_not_fit_is_refused_at_the_preparation() {
    let mut store = MemoryStore::new(1000, 0xFF);
    assert_eq!(save_blob(&mut store, &pattern(1001)), Err(TransferError::Prepare));
    assert!(store.bytes().iter().all(|b| *b == 0xFF));
}

#[test]
fn load_fails_at_the_chunk_that_reaches_past_the_end() {
    let mut store = MemoryStore::new(700, 7);
    let mut loaded = vec![0u8; 1000];
    assert_eq!(load_blob(&mut store, &mut loaded), Err(TransferError::Read { offset: 512 }));
    assert!(loaded[..512].iter().all(|b| *b == 7));
    assert!(loaded[512..].iter().all(|b| *b == 0));
    let mut loaded = vec![0u8; 1600];
    let mut store = MemoryStore::new(1500, 7);
    assert_eq!(load_blob(&mut store, &mut loaded), Err(TransferError::Read { offset: 1024 }));
}
