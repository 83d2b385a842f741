use kotoba::cid::KotobaCid;
use kotoba::debug_text::{push_content_debug, push_object_debug, push_opt_cid_debug, push_quad_debug};
use kotoba::quad::{Quad, QuadObject, TensorDtype};
use kotoba::source_chain::{ChainContent, ProgramType};

fn text(v: Vec<char>) -> String {
    v.into_iter().collect()
}

fn cid(s: &str) -> KotobaCid {
    KotobaCid::from_bytes(s.as_bytes())
}

fn objects() -> Vec<QuadObject> {
    vec![
        QuadObject::Cid(cid("a")),
        QuadObject::Integer(-42),
        QuadObject::Integer(i64::MIN),
        QuadObject::Integer(7),
        QuadObject::Float(4607182418800017408),
        QuadObject::Text("he said \"hi\"\n\t\u{1}é".to_string()),
        QuadObject::Bool(true),
        QuadObject::Bool(false),
        QuadObject::Bytes(vec![]),
        QuadObject::Bytes(vec![0, 255, 17]),
        QuadObject::VectorF32(vec![1, 4294967295]),
        QuadObject::TensorCid { cid: cid("t"), shape: vec![2, 3], dtype: TensorDtype::F8E4M3 },
        QuadObject::Encrypted { ct_cid: cid("c"), policy_cid: cid("p") },
    ]
}

#[test]
fn object_debug_text_matches_derived_debug() {
    for o in objects() {
        let mut v = Vec::new();
        push_object_debug(&mut v, &o);
        assert_eq!(text(v), format!("{:?}", o));
    }
}

#[test]
fn quad_debug_text_matches_derived_debug() {
    for o in objects() {
        let q = Quad { graph: cid("g"), subject: cid("s"), predicate: "p/\"x\"".to_string(), object: o };
        let mut v = Vec::new();
        push_quad_debug(&mut v, &q);
        assert_eq!(text(v), format!("{:?}", q));
    }
}

#[test]
fn content_debug_text_matches_derived_debug() {
    let contents = vec![
        ChainContent::Quad(Quad { graph: cid("g"), subject: cid("s"), predicate: "p".to_string(), object: QuadObject::Bool(true) }),
        ChainContent::Commit { graph_cid: cid("g"), prolly_root: cid("r") },
        ChainContent::Invoke {
            program_cid: cid("prog"),
            program_type: ProgramType::WasmUdf,
            input_topics: vec!["a/b".to_string(), "q\"".to_string()],
            max_steps: 10,
            call_id: u64::MAX,
        },
        ChainContent::Invoke { program_cid: cid("prog"), program_type: ProgramType::Datalog, input_topics: vec![], max_steps: 0, call_id: 0 },
        ChainContent::Result { call_id: 3, status: 2, steps_used: 9 },
        ChainContent::Warrant { accused: vec![1, 2], evidence: cid("e"), rule_id: 4 },
        ChainContent::Infer { model_cid: cid("m"), adapter_cid: Some(cid("ad")), session_cid: None, max_tokens: 64, call_id: 1 },
    ];
    for c in contents {
        let mut v = Vec::new();
        push_content_debug(&mut v, &c);
        assert_eq!(text(v), format!("{:?}", c));
    }
    for p in [None, Some(cid("x"))] {
        let mut v = Vec::new();
        push_opt_cid_debug(&mut v, &p);
        assert_eq!(text(v), format!("{:?}", p));
    }
}
