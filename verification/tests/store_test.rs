use kotoba::cid::KotobaCid;
use kotoba::store::{put_verified, BlockStore, CapturingBlockStore, MemoryBlockStore, StoreError};

#[test]
fn put_verified_succeeds_with_correct_cid() {
    let mut store = MemoryBlockStore::new();
    let data = b"hello kotoba";
    let cid = KotobaCid::from_bytes(data);
    put_verified(&mut store, &cid, data).unwrap();
    assert!(store.has(&cid));
}

#[test]
fn put_verified_fails_with_wrong_cid() {
    let mut store = MemoryBlockStore::new();
    let data = b"real data";
    let bad_cid = KotobaCid::from_bytes(b"different data");
    let result = put_verified(&mut store, &bad_cid, data);
    assert!(result.is_err(), "must reject CID mismatch");
    assert!(!store.has(&bad_cid));
}

#[test]
fn put_verified_mismatch_names_both_cids() {
    let mut store = MemoryBlockStore::new();
    let bad = KotobaCid::from_bytes(b"x");
    let real = KotobaCid::from_bytes(b"y");
    match put_verified(&mut store, &bad, b"y") {
        Err(e @ StoreError::CidMismatch { .. }) => {
            assert_eq!(
                e.message(),
                format!("cid mismatch: expected {}, got {}", bad.to_multibase(), real.to_multibase())
            );
        }
        other => panic!("unexpected {other:?}"),
    }
    assert_eq!(store.block_count(), 0);
}

#[test]
fn store_error_is_displayable() {
    let err = StoreError::Io(std::io::Error::new(std::io::ErrorKind::Other, "disk full"));
    let msg = err.message();
    assert!(msg.contains("io error") || msg.contains("disk full"), "got: {msg}");
}

#[test]
fn put_verified_empty_data() {
    let mut store = MemoryBlockStore::new();
    let data = b"";
    let cid = KotobaCid::from_bytes(data);
    put_verified(&mut store, &cid, data).unwrap();
    assert!(store.has(&cid), "empty data must be stored");
}

#[test]
fn put_verified_binary_data() {
    let mut store = MemoryBlockStore::new();
    let data: Vec<u8> = (0u8..=255).collect();
    let cid = KotobaCid::from_bytes(&data);
    put_verified(&mut store, &cid, &data).unwrap();
    assert!(store.has(&cid));
}

#[test]
fn put_verified_two_different_blocks() {
    let mut store = MemoryBlockStore::new();
    let d1 = b"block one";
    let d2 = b"block two";
    let c1 = KotobaCid::from_bytes(d1);
    let c2 = KotobaCid::from_bytes(d2);
    put_verified(&mut store, &c1, d1).unwrap();
    put_verified(&mut store, &c2, d2).unwrap();
    assert!(store.has(&c1));
    assert!(store.has(&c2));
    assert_ne!(c1, c2, "different data must yield different CIDs");
}

#[test]
fn store_error_debug_is_non_empty() {
    let err = StoreError::Io(std::io::Error::new(std::io::ErrorKind::Other, "err"));
    let s = format!("{:?}", err);
    assert!(!s.is_empty());
}

#[test]
fn memory_store_get_and_delete() {
    let mut store = MemoryBlockStore::default();
    let cid = KotobaCid::from_bytes(b"v");
    store.put(&cid, b"v").unwrap();
    assert_eq!(store.get(&cid).unwrap(), Some(b"v".to_vec()));
    store.put(&cid, b"w").unwrap();
    assert_eq!(store.block_count(), 1);
    store.delete(&cid).unwrap();
    assert_eq!(store.get(&cid).unwrap(), None);
}

fn make_cid(tag: &[u8]) -> KotobaCid {
    KotobaCid::from_bytes(tag)
}

#[test]
fn put_is_captured_and_forwarded() {
    let mut cs = CapturingBlockStore::new(MemoryBlockStore::default());
    let cid = make_cid(b"block-a");
    let data = b"hello";
    cs.put(&cid, data).unwrap();
    assert_eq!(cs.inner().get(&cid).unwrap().as_deref(), Some(data.as_slice()));
    assert_eq!(cs.len(), 1);
    assert!(!cs.is_empty());
}

#[test]
fn drain_returns_and_clears_captured() {
    let mut cs = CapturingBlockStore::new(MemoryBlockStore::default());
    let c1 = make_cid(b"block-1");
    let c2 = make_cid(b"block-2");
    cs.put(&c1, b"data1").unwrap();
    cs.put(&c2, b"data2").unwrap();
    let drained = cs.drain();
    assert_eq!(drained.len(), 2);
    assert_eq!(drained[0], (c1, b"data1".to_vec()));
    assert!(cs.is_empty(), "drain must empty the buffer");
    assert!(cs.inner().has(&c1));
    assert!(cs.inner().has(&c2));
}

#[test]
fn get_and_has_delegate_to_inner() {
    let mut inner = MemoryBlockStore::default();
    let cid = make_cid(b"get-test");
    inner.put(&cid, b"value").unwrap();
    let cs = CapturingBlockStore::new(inner);
    assert!(cs.has(&cid));
    assert_eq!(cs.get(&cid).unwrap().as_deref(), Some(b"value".as_slice()));
    assert_eq!(cs.len(), 0);
}

#[test]
fn delete_delegates_to_inner() {
    let mut cs = CapturingBlockStore::new(MemoryBlockStore::default());
    let cid = make_cid(b"del-test");
    cs.put(&cid, b"will-be-deleted").unwrap();
    cs.delete(&cid).unwrap();
    assert!(!cs.inner().has(&cid));
}
