use kotoba::ipfs::{cid_for_bytes, is_sha2_256, parse_cid, raw_cid, CidError, CODEC_DAG_CBOR, CODEC_RAW};

#[test]
fn raw_cid_is_ipfs_sha2_256() {
    let cid = raw_cid(b"hello kotoba");
    assert_eq!(cid.version, 1);
    assert_eq!(cid.codec, CODEC_RAW);
    assert!(is_sha2_256(&cid));
    assert!(cid.to_text().starts_with("bafkrei"));
}

#[test]
fn raw_cid_matches_kubo_cid_v1_raw_sha2_256_vector() {
    let cid = raw_cid(b"hello");
    assert_eq!(cid.to_text(), "bafkreibm6jg3ux5qumhcn2b3flc3tyu6dmlb4xa7u5bf44yegnrjhc4yeq");
    assert_eq!(parse_cid(&cid.to_text()).unwrap(), cid);
}

#[test]
fn cid_for_bytes_is_codec_sensitive() {
    let data = b"same bytes";
    let raw = cid_for_bytes(CODEC_RAW, data);
    let dag_cbor = cid_for_bytes(CODEC_DAG_CBOR, data);
    assert_ne!(raw, dag_cbor);
    assert_eq!(raw.digest, dag_cbor.digest);
    assert_eq!(raw.hash_code, dag_cbor.hash_code);
}

#[test]
fn parse_roundtrip() {
    let cid = raw_cid(b"roundtrip");
    let parsed = parse_cid(&cid.to_text()).unwrap();
    assert_eq!(parsed, cid);
}

#[test]
fn parse_rejects_garbage() {
    assert!(matches!(parse_cid("not a cid"), Err(CidError::Parse(_))));
}

#[test]
fn cid_bytes_start_with_version_and_codec() {
    let cid = cid_for_bytes(CODEC_DAG_CBOR, b"x");
    let b = cid.to_bytes();
    assert_eq!(b.len(), 4 + 32);
    assert_eq!(&b[..4], &[0x01, 0x71, 0x12, 0x20]);
}

#[test]
fn large_codec_is_written_as_varint() {
    let cid = cid_for_bytes(0x0129, b"x");
    let b = cid.to_bytes();
    assert_eq!(&b[..5], &[0x01, 0xa9, 0x02, 0x12, 0x20]);
    assert_eq!(parse_cid(&cid.to_text()).unwrap(), cid);
}

#[test]
fn cid_v0_text_and_bytes_round_trip() {
    let text = "QmYwAPJzv5CZsnA625s3Xf2nemtYgPpHdWEz79ojWnPbdG";
    let c = parse_cid(text).unwrap();
    assert_eq!(c.version, 0);
    assert_eq!(c.to_text(), text);
    let b = c.to_bytes();
    assert_eq!(b.len(), 34);
    assert_eq!(&b[..2], &[0x12, 0x20]);
}
