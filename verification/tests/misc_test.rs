use kotoba::cid::KotobaCid;
use kotoba::commit::{Commit, CommitDag};
use kotoba::datalog::{Atom, BodyLiteral, DatalogProgram, DatalogRule, Term};
use kotoba::datom::{Arrangement, Datom, Delta};
use kotoba::ip::{IpAddress, IpFamily};
use kotoba::prolly::ProllyTree;
use kotoba::quad::{Quad, QuadObject, Value};
use kotoba::quad_store::QuadStore;
use kotoba::source_chain::{ChainContent, ChainEntry, ChainError, SourceChain};
use kotoba::vm::{dispatch_datalog, udf_invoke_result, wasm_bytes, DispatchResult, ExecStatus, KotobaVm, RouterError};

fn cid(s: &str) -> KotobaCid {
    KotobaCid::from_bytes(s.as_bytes())
}

fn rule(head: &str, body: &str) -> DatalogRule {
    DatalogRule {
        head: Atom { relation: head.to_string(), args: vec![Term::Variable("X".into()), Term::Variable("Y".into())] },
        body: vec![BodyLiteral::Positive(Atom {
            relation: body.to_string(),
            args: vec![Term::Variable("X".into()), Term::Variable("Y".into())],
        })],
    }
}

fn edge(from: &str, to: &str) -> Delta {
    Delta::assert_datom(Datom::new(cid(from), "edge".to_string(), Value::Cid(cid(to)), cid("g")))
}

#[test]
fn vm_applies_each_rule_once() {
    let mut prog = DatalogProgram::new();
    prog.add_rule(rule("r1", "edge"));
    prog.add_rule(rule("r2", "edge"));
    let arr = Arrangement::new();
    let res = KotobaVm::execute(&cid("p"), &prog, &arr, &[edge("a", "b")], 10, 7);
    assert_eq!(res.call_id, 7);
    assert_eq!(res.status, ExecStatus::Completed);
    assert_eq!(res.steps_used, 2);
    assert_eq!(res.out_deltas.len(), 4);
}

#[test]
fn vm_stops_at_step_limit() {
    let mut prog = DatalogProgram::new();
    prog.add_rule(rule("r1", "edge"));
    prog.add_rule(rule("r2", "edge"));
    let arr = Arrangement::new();
    let res = KotobaVm::execute(&cid("p"), &prog, &arr, &[edge("a", "b")], 1, 0);
    assert_eq!(res.status, ExecStatus::StepsExceeded);
    assert_eq!(res.steps_used, 1);
    assert_eq!(res.out_deltas.len(), 2);
    assert!(matches!(
        dispatch_datalog("p", &prog, &arr, &[edge("a", "b")], 1, 0),
        Err(RouterError::StepsExceeded)
    ));
    assert!(matches!(
        dispatch_datalog("p", &prog, &arr, &[edge("a", "b")], 2, 0),
        Ok(DispatchResult::Datalog(_))
    ));
}

#[test]
fn router_wasm_helpers() {
    assert!(matches!(wasm_bytes(None), Err(RouterError::MissingWasmBytes)));
    assert_eq!(wasm_bytes(Some(&[1, 2][..])).unwrap(), &[1, 2]);
    let r = udf_invoke_result(vec![vec![1, 2], vec![], vec![3]]);
    assert_eq!(r.output_cbor, vec![1, 2, 3]);
    assert_eq!(r.gas_used, 0);
    assert_eq!(RouterError::StepsExceeded.message(), "datalog execution exceeded step limit");
}

fn q(graph: &str, subj: &str, obj: &str) -> Quad {
    Quad { graph: cid(graph), subject: cid(subj), predicate: "p".to_string(), object: QuadObject::Text(obj.to_string()) }
}

#[test]
fn quad_store_keeps_graphs_apart() {
    let mut store = QuadStore::new();
    assert!(store.assert_quad(q("g1", "s", "o")).is_assert());
    store.assert_quad(q("g1", "s", "o"));
    store.assert_quad(q("g2", "s", "o"));
    assert_eq!(store.arrangement(&cid("g1")).unwrap().len(), 1);
    assert_eq!(store.arrangement(&cid("g2")).unwrap().len(), 1);
    assert!(store.arrangement(&cid("g3")).is_none());
    assert!(!store.retract(q("g1", "s", "o")).is_assert());
    assert!(store.arrangement(&cid("g1")).unwrap().is_empty());
}

#[test]
fn ip_families() {
    assert_eq!(IpFamily::from(IpAddress::V4([127, 0, 0, 1])), IpFamily::V4);
    assert_eq!(IpFamily::from(IpAddress::V6([0; 16])), IpFamily::V6);
    assert_eq!(IpFamily::V4.unspecified_addr(), IpAddress::V4([0, 0, 0, 0]));
    assert_eq!(IpFamily::V6.unspecified_addr(), IpAddress::V6([0; 16]));
    assert_eq!(IpFamily::V4.local_addr(), IpAddress::V4([127, 0, 0, 1]));
    let mut lo = [0u8; 16];
    lo[15] = 1;
    assert_eq!(IpFamily::V6.local_addr(), IpAddress::V6(lo));
}

#[test]
fn commit_dag_tracks_heads() {
    let mut dag = CommitDag::new();
    let g = cid("graph");
    assert!(dag.head(&g).is_none());
    dag.add(Commit { cid: cid("c1"), graph: g, root: cid("r1"), prev: None, author: "did:a".to_string(), seq: 1, ts: 1 });
    dag.add(Commit { cid: cid("c2"), graph: g, root: cid("r2"), prev: Some(cid("c1")), author: "did:a".to_string(), seq: 2, ts: 2 });
    assert_eq!(dag.head(&g).unwrap().cid, cid("c2"));
}

#[test]
fn prolly_diff_at_root() {
    let t = ProllyTree::new();
    assert!(t.root_cid().is_none());
    let (a, b) = ProllyTree::diff(&cid("x"), &cid("x"));
    assert!(a.is_empty() && b.is_empty());
    let (a, b) = ProllyTree::diff(&cid("x"), &cid("y"));
    assert_eq!(a, vec![cid("x")]);
    assert_eq!(b, vec![cid("y")]);
}

#[test]
fn source_chain_links_entries() {
    let mut chain = SourceChain::new("did:a");
    let content = || ChainContent::Commit { graph_cid: cid("g"), prolly_root: cid("r") };
    let e0 = ChainEntry::new(None, "did:a".to_string(), 0, content(), vec![]);
    let c0 = e0.cid;
    chain.append(e0).unwrap();
    let bad = ChainEntry::new(None, "did:a".to_string(), 1, content(), vec![]);
    assert_eq!(chain.append(bad).unwrap_err(), ChainError::PrevMismatch);
    let skip = ChainEntry::new(Some(c0), "did:a".to_string(), 5, content(), vec![]);
    assert_eq!(chain.append(skip).unwrap_err(), ChainError::SeqMismatch { expected: 1, got: 5 });
    let e1 = ChainEntry::new(Some(c0), "did:a".to_string(), 1, content(), vec![]);
    chain.append(e1).unwrap();
    assert_eq!(chain.len(), 2);
    assert_eq!(chain.head().unwrap().prev, Some(c0));
}

#[test]
fn subject_datoms_keep_subject_tx_and_value() {
    let email = KotobaCid::from_bytes(b"email-bridge");
    let tx = KotobaCid::from_bytes(b"tx-email-bridge");
    let other_tx = KotobaCid::from_bytes(b"tx-other");
    let mut arr = Arrangement::new();
    arr.insert_datom(Datom::new(email, "email/message_id".to_string(), Value::Text("<bridge@example>".to_string()), tx));
    arr.insert_datom(Datom::new(email, "email/date".to_string(), Value::Text("1".to_string()), other_tx));
    arr.insert_datom(Datom::new(email, "email/subject".to_string(), Value::Text("hi".to_string()), tx));
    let datoms = arr.get_subject_datoms(&tx, &email);
    assert_eq!(datoms.len(), 2);
    assert_eq!(datoms[0].e, email);
    assert_eq!(datoms[0].a, "email/message_id");
    assert_eq!(datoms[0].tx, tx);
    assert!(matches!(&datoms[0].v, Value::Text(t) if t == "<bridge@example>"));
    assert_eq!(datoms[1].a, "email/subject");
    assert!(arr.get_subject_datoms(&other_tx, &KotobaCid::from_bytes(b"nobody")).is_empty());
}
