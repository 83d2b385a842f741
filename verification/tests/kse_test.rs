use kotoba::cid::KotobaCid;
use kotoba::kse::{uuid, entry_store_key, Journal, Shelf, ShelfBucket, Vault, BUCKET_HEADS};

#[test]
fn publish_increments_seq() {
    let mut journal = Journal::new();
    let e1 = journal.publish("test/seq".to_string(), b"a".to_vec());
    let e2 = journal.publish("test/seq".to_string(), b"b".to_vec());
    let e3 = journal.publish("test/seq".to_string(), b"c".to_vec());
    assert_eq!(e1.seq, 1);
    assert_eq!(e2.seq, 2);
    assert_eq!(e3.seq, 3);
}

#[test]
fn publish_cid_is_deterministic() {
    let mut journal = Journal::default();
    let payload = b"hello kotoba".to_vec();
    let e1 = journal.publish("test/cid".to_string(), payload.clone());
    let e2 = journal.publish("test/cid".to_string(), payload.clone());
    assert_eq!(e1.cid, e2.cid, "same payload must produce same CID");
    assert_eq!(e1.cid, KotobaCid::from_bytes(&payload));
}

#[test]
fn publish_returns_correct_topic_and_payload() {
    let mut journal = Journal::new();
    let entry = journal.publish("kotoba/test/entry".to_string(), vec![1u8, 2, 3, 4]);
    assert_eq!(entry.topic, "kotoba/test/entry");
    assert_eq!(entry.payload, vec![1u8, 2, 3, 4]);
    assert_eq!(entry_store_key(&entry), format!("{}.cbor", entry.cid.to_multibase()));
}

#[test]
fn cursor_ids_are_timestamped() {
    let id = uuid();
    assert!(id.starts_with("cursor-"));
    assert!(id["cursor-".len()..].chars().all(|c| c.is_ascii_digit()));
}

#[test]
fn bucket_revisions_count_puts() {
    let mut b = ShelfBucket::new("b");
    assert_eq!(b.put("k".to_string(), vec![1]), 1);
    assert_eq!(b.put("k".to_string(), vec![2]), 2);
    assert_eq!(b.put("j".to_string(), vec![3]), 1);
    assert_eq!(b.get("k"), Some(&vec![2]));
    b.delete("k");
    assert_eq!(b.get("k"), None);
    assert_eq!(b.put("k".to_string(), vec![4]), 1);
}

#[test]
fn shelf_head_roundtrip() {
    let mut shelf = Shelf::new();
    let g = KotobaCid::from_bytes(b"graph");
    let c = KotobaCid::from_bytes(b"commit");
    assert_eq!(shelf.get_head(&g), None);
    shelf.set_head(&g, &c);
    assert_eq!(shelf.get_head(&g), Some(c));
    assert_eq!(shelf.get(BUCKET_HEADS, &g.to_multibase()), Some(c.0.to_vec()));
}

#[test]
fn shelf_head_needs_36_bytes() {
    let mut shelf = Shelf::new();
    let g = KotobaCid::from_bytes(b"graph");
    shelf.put(BUCKET_HEADS, g.to_multibase(), vec![1, 2, 3]);
    assert_eq!(shelf.get_head(&g), None);
}

#[test]
fn shelf_creates_missing_bucket() {
    let mut shelf = Shelf::new();
    assert_eq!(shelf.get("EXTRA", "k"), None);
    assert_eq!(shelf.put("EXTRA", "k".to_string(), vec![5]), 1);
    assert_eq!(shelf.put("EXTRA", "k".to_string(), vec![6]), 2);
    assert_eq!(shelf.get("EXTRA", "k"), Some(vec![6]));
}

#[test]
fn vault_put_get() {
    let mut vault = Vault::new();
    let r = vault.put(b"blob".to_vec());
    assert_eq!(r.size, 4);
    assert_eq!(r.cid, KotobaCid::from_bytes(b"blob"));
    assert!(vault.contains(&r.cid));
    assert_eq!(vault.get(&r.cid), Some(b"blob".to_vec()));
    assert!(!vault.contains(&KotobaCid::from_bytes(b"other")));
}
