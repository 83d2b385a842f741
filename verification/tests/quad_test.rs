use kotoba::cid::KotobaCid;
use kotoba::datom::Delta;
use kotoba::llm::{embed_to_quad, Embedding, WeightBlob, WeightRef};
use kotoba::kse::Vault;
use kotoba::quad::{Quad, QuadObject, TensorDtype, Value};

fn cid(tag: &[u8]) -> KotobaCid {
    KotobaCid::from_bytes(tag)
}

fn quad(pred: &str, obj: QuadObject) -> Quad {
    Quad { graph: cid(b"g"), subject: cid(b"s"), predicate: pred.to_string(), object: obj }
}

#[test]
fn spo_key_starts_with_subject_bytes() {
    let q = quad("pred/foo", QuadObject::Text("v".to_string()));
    let key = q.spo_key();
    assert_eq!(&key[..36], &cid(b"s").0);
}

#[test]
fn spo_key_differs_by_predicate() {
    let a = quad("pred/a", QuadObject::Text("same".to_string())).spo_key();
    let b = quad("pred/b", QuadObject::Text("same".to_string())).spo_key();
    assert_ne!(a, b);
}

#[test]
fn spo_key_cid_object_appended() {
    let obj_cid = cid(b"obj");
    let q = quad("rel", QuadObject::Cid(obj_cid.clone()));
    let key = q.spo_key();
    assert_eq!(key.len(), 36 + "rel".len() + 36);
    assert_eq!(&key[36 + "rel".len()..], &obj_cid.0);
}

#[test]
fn spo_key_scalar_object_not_appended() {
    let q_int = quad("p", QuadObject::Integer(42)).spo_key();
    let q_text = quad("p", QuadObject::Text("x".to_string())).spo_key();
    let expected_len = 36 + "p".len();
    assert_eq!(q_int.len(), expected_len);
    assert_eq!(q_text.len(), expected_len);
}

#[test]
fn spo_key_encrypted_uses_ct_cid() {
    let ct = cid(b"ct");
    let pol = cid(b"policy");
    let q = quad("enc/field", QuadObject::Encrypted { ct_cid: ct.clone(), policy_cid: pol });
    let key = q.spo_key();
    assert_eq!(&key[36 + "enc/field".len()..], &ct.0);
}

#[test]
fn cid_header_and_multibase_roundtrip() {
    let c = cid(b"hello");
    assert_eq!(&c.0[..4], &[0x01, 0x55, 0x1e, 0x20]);
    assert_eq!(&c.0[4..], blake3::hash(b"hello").as_bytes());
    let mb = c.to_multibase();
    assert!(mb.starts_with('b'));
    assert_eq!(KotobaCid::from_multibase(&mb), Some(c));
    assert_eq!(KotobaCid::from_multibase("zabc"), None);
}

fn embedding(size: usize) -> Embedding {
    Embedding { doc_cid: cid(b"doc"), model_cid: cid(b"model"), vector: vec![1.0f32.to_bits(); size] }
}

fn value(d: &Delta) -> &Value {
    &d.datom.v
}

#[test]
fn embed_to_quad_is_assert_delta() {
    let d = embed_to_quad(&embedding(4), cid(b"g"));
    assert!(d.is_assert());
}

#[test]
fn embed_to_quad_predicate_contains_model_cid() {
    let emb = embedding(4);
    let d = embed_to_quad(&emb, cid(b"g"));
    assert!(d.datom.a.starts_with("embedding/"), "predicate should start with 'embedding/': {}", d.datom.a);
    assert_eq!(d.datom.a, format!("embedding/{}", cid(b"model").to_multibase()));
}

#[test]
fn embed_to_quad_small_vector_is_inline() {
    let d = embed_to_quad(&embedding(10), cid(b"g"));
    assert!(matches!(value(&d), Value::VectorF32(_)), "small vector (≤1024) should be inline VectorF32");
}

#[test]
fn embed_to_quad_exactly_1024_is_inline() {
    let d = embed_to_quad(&embedding(1024), cid(b"g"));
    assert!(matches!(value(&d), Value::VectorF32(_)), "exactly 1024 dims should be inline");
}

#[test]
fn embed_to_quad_size_1023_is_inline() {
    let d = embed_to_quad(&embedding(1023), cid(b"g"));
    assert!(matches!(value(&d), Value::VectorF32(_)), "1023 dims should be inline VectorF32");
}

#[test]
fn embed_to_quad_empty_vector_is_inline() {
    let d = embed_to_quad(&embedding(0), cid(b"doc"));
    assert!(matches!(value(&d), Value::VectorF32(_)), "empty vector (size 0 <= 1024) should be VectorF32");
}

#[test]
fn embed_to_quad_large_vector_is_tensor_cid() {
    let d = embed_to_quad(&embedding(1025), cid(b"g"));
    assert!(matches!(value(&d), Value::TensorCid { .. }), "vector > 1024 dims should be TensorCid");
}

#[test]
fn embed_to_quad_large_shape_is_vector_len() {
    let d = embed_to_quad(&embedding(2048), cid(b"g"));
    match value(&d) {
        Value::TensorCid { shape, .. } => assert_eq!(shape, &vec![2048u32]),
        _ => panic!("expected TensorCid"),
    }
}

#[test]
fn embed_to_quad_large_tensor_dtype_is_f32() {
    let d = embed_to_quad(&embedding(1025), cid(b"g"));
    match value(&d) {
        Value::TensorCid { dtype, .. } => assert_eq!(*dtype, TensorDtype::F32),
        _ => panic!("expected TensorCid"),
    }
}

#[test]
fn embed_to_quad_large_blob_is_le_bytes() {
    let emb = Embedding { doc_cid: cid(b"doc"), model_cid: cid(b"m"), vector: vec![0x0403_0201u32; 1025] };
    let d = embed_to_quad(&emb, cid(b"g"));
    let bytes: Vec<u8> = [1u8, 2, 3, 4].repeat(1025);
    match value(&d) {
        Value::TensorCid { cid: c, .. } => assert_eq!(*c, KotobaCid::from_bytes(&bytes)),
        _ => panic!("expected TensorCid"),
    }
}

#[test]
fn embed_to_quad_graph_cid_stored_in_quad() {
    let d = embed_to_quad(&embedding(4), cid(b"my-graph"));
    assert_eq!(d.datom.tx, cid(b"my-graph"), "graph_cid should be stored in datom.tx");
}

#[test]
fn embed_to_quad_subject_is_doc_cid() {
    let d = embed_to_quad(&embedding(4), cid(b"g"));
    assert_eq!(d.datom.e, cid(b"doc"));
}

#[test]
fn embed_to_quad_different_model_cids_different_predicates() {
    let mut a = embedding(4);
    a.model_cid = cid(b"modelA");
    let mut b = embedding(4);
    b.model_cid = cid(b"modelB");
    let da = embed_to_quad(&a, cid(b"g"));
    let db = embed_to_quad(&b, cid(b"g"));
    assert_ne!(da.datom.a, db.datom.a, "different model_cids must produce different predicates");
}

#[test]
fn weight_ref_quad_names_layer() {
    let w = WeightRef {
        model_cid: cid(b"model"),
        layer: 12,
        blob_cid: cid(b"blob"),
        shape: vec![4, 4],
        dtype: TensorDtype::F8E4M3,
    };
    let q = w.to_quad(cid(b"g"));
    assert_eq!(q.predicate, "weight/layer/12");
    assert_eq!(q.subject, cid(b"model"));
    match q.object {
        QuadObject::TensorCid { cid: c, shape, dtype } => {
            assert_eq!(c, cid(b"blob"));
            assert_eq!(shape, vec![4, 4]);
            assert_eq!(dtype, TensorDtype::F8E4M3);
        }
        other => panic!("unexpected {other:?}"),
    }
}

#[test]
fn weight_blob_is_stored_in_vault() {
    let mut vault = Vault::new();
    let blob = WeightBlob::store(&mut vault, vec![9, 9, 9], vec![3], TensorDtype::F8E5M2);
    assert_eq!(blob.blob_cid, cid(&[9, 9, 9]));
    assert_eq!(vault.get(&blob.blob_cid), Some(vec![9, 9, 9]));
}
