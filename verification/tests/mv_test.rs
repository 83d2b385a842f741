use kotoba::cid::KotobaCid;
use kotoba::datalog::{Atom, BodyLiteral, DatalogProgram, DatalogRule, Term};
use kotoba::datom::{Datom, Delta};
use kotoba::mv::MaterializedView;
use kotoba::quad::Value;

fn cid(seed: &str) -> KotobaCid {
    KotobaCid::from_bytes(seed.as_bytes())
}

fn edge_datom(from: &str, to: &str) -> Datom {
    Datom::new(cid(from), "edge".to_string(), Value::Cid(cid(to)), cid("g"))
}

fn edge_assert(from: &str, to: &str) -> Delta {
    Delta::assert_datom(edge_datom(from, to))
}

fn edge_retract(from: &str, to: &str) -> Delta {
    Delta::retract_datom(edge_datom(from, to))
}

fn make_rule(head_rel: &str, body_rel: &str) -> DatalogRule {
    DatalogRule {
        head: Atom {
            relation: head_rel.to_string(),
            args: vec![Term::Variable("X".into()), Term::Variable("Y".into())],
        },
        body: vec![BodyLiteral::Positive(Atom {
            relation: body_rel.to_string(),
            args: vec![Term::Variable("X".into()), Term::Variable("Y".into())],
        })],
    }
}

#[test]
fn new_mv_has_empty_state() {
    let mut prog = DatalogProgram::new();
    prog.add_rule(make_rule("reachable", "edge"));
    let mv = MaterializedView::new("reachable", prog);
    assert!(mv.state.is_empty());
    assert_eq!(mv.name, "reachable");
}

#[test]
fn apply_projects_edge_to_reachable() {
    let mut prog = DatalogProgram::new();
    prog.add_rule(make_rule("reachable", "edge"));
    let mut mv = MaterializedView::new("reachable", prog);

    let deltas = vec![edge_assert("a", "b"), edge_assert("b", "c")];
    let out = mv.apply(&deltas);

    assert!(!out.is_empty(), "apply should produce derived deltas");
    let derived_rels: Vec<String> = out.iter().map(|d| d.attribute().to_string()).collect();
    assert!(
        derived_rels.iter().all(|r| r == "reachable"),
        "all derived quads should have relation 'reachable'"
    );

    let subjects: Vec<KotobaCid> = out.iter().map(|d| d.entity().clone()).collect();
    assert!(subjects.contains(&cid("a")));
    assert!(subjects.contains(&cid("b")));
}

#[test]
fn apply_accumulates_state_across_calls() {
    let mut prog = DatalogProgram::new();
    prog.add_rule(make_rule("reachable", "edge"));
    let mut mv = MaterializedView::new("reachable", prog);

    mv.apply(&[edge_assert("a", "b")]);
    assert_eq!(mv.state.len(), 1, "state should have 1 quad after first apply");

    mv.apply(&[edge_assert("b", "c")]);
    assert_eq!(mv.state.len(), 2, "state should have 2 quads after second apply");
}

#[test]
fn retract_removes_from_state() {
    let mut prog = DatalogProgram::new();
    prog.add_rule(make_rule("reachable", "edge"));
    let mut mv = MaterializedView::new("reachable", prog);

    mv.apply(&[edge_assert("a", "b")]);
    assert_eq!(mv.state.len(), 1);

    mv.apply(&[edge_retract("a", "b")]);
    assert_eq!(mv.state.len(), 0);
}

#[test]
fn apply_empty_deltas_returns_empty_and_leaves_state_unchanged() {
    let mut prog = DatalogProgram::new();
    prog.add_rule(make_rule("reachable", "edge"));
    let mut mv = MaterializedView::new("reachable", prog);

    let out = mv.apply(&[]);
    assert!(out.is_empty(), "empty delta input must produce no derived deltas");
    assert!(mv.state.is_empty(), "state must remain empty after empty apply");
}

#[test]
fn apply_with_no_rules_accumulates_state_but_derives_nothing() {
    let prog = DatalogProgram::new();
    let mut mv = MaterializedView::new("noop", prog);

    let out = mv.apply(&[edge_assert("a", "b")]);
    assert!(out.is_empty(), "no rules → no derived deltas");
    assert_eq!(mv.state.len(), 1, "raw input delta still applied to state");
}

#[test]
fn name_preserved() {
    let mv = MaterializedView::new("my-view", DatalogProgram::new());
    assert_eq!(mv.name, "my-view");
}

#[test]
fn new_mv_state_is_empty_initially() {
    let mv = MaterializedView::new("empty", DatalogProgram::new());
    assert!(mv.state.is_empty());
    assert_eq!(mv.state.len(), 0);
}

#[test]
fn apply_with_retract_on_empty_state_does_not_panic() {
    let prog = DatalogProgram::new();
    let mut mv = MaterializedView::new("noop-retract", prog);
    let out = mv.apply(&[edge_retract("x", "y")]);
    assert!(out.is_empty(), "no rules → no derived deltas");
    assert_eq!(mv.state.len(), 0, "retract of phantom quad keeps state at 0");
}

#[test]
fn apply_multiple_asserts_accumulate_in_state() {
    let prog = DatalogProgram::new();
    let mut mv = MaterializedView::new("accumulate", prog);
    let quads: Vec<_> = (0u8..5)
        .map(|i| {
            let s = format!("s{i}");
            let t = format!("t{i}");
            edge_assert(&s, &t)
        })
        .collect();
    mv.apply(&quads);
    assert_eq!(mv.state.len(), 5, "five asserts → five quads in state");
}

#[test]
fn assert_then_retract_same_quad_leaves_empty_state() {
    let prog = DatalogProgram::new();
    let mut mv = MaterializedView::new("assert-retract", prog);
    mv.apply(&[edge_assert("alice", "bob")]);
    assert_eq!(mv.state.len(), 1);
    mv.apply(&[edge_retract("alice", "bob")]);
    assert_eq!(mv.state.len(), 0);
}

#[test]
fn apply_returns_empty_for_program_with_no_rules_any_input() {
    let prog = DatalogProgram::new();
    let mut mv = MaterializedView::new("zero-rules", prog);
    let deltas: Vec<_> = (0u8..3)
        .map(|i| edge_assert(&format!("a{i}"), &format!("b{i}")))
        .collect();
    let out = mv.apply(&deltas);
    assert!(out.is_empty(), "no rules → output always empty");
}

#[test]
fn mv_name_is_accessible_from_field() {
    let name = "my-materialized-view";
    let mv = MaterializedView::new(name, DatalogProgram::new());
    assert_eq!(mv.name.as_str(), name);
}

#[test]
fn state_len_increments_with_each_assert() {
    let prog = DatalogProgram::new();
    let mut mv = MaterializedView::new("inc", prog);
    for i in 0u8..10 {
        mv.apply(&[edge_assert(&format!("from{i}"), &format!("to{i}"))]);
        assert_eq!(mv.state.len(), (i as usize) + 1);
    }
}

#[test]
fn derived_reachable_keeps_source_and_target() {
    let mut prog = DatalogProgram::new();
    prog.add_rule(make_rule("reachable", "edge"));
    let mut mv = MaterializedView::new("reachable", prog);
    let out = mv.apply(&[edge_assert("a", "b")]);
    assert_eq!(out.len(), 1);
    assert!(out[0].is_assert());
    assert_eq!(out[0].attribute(), "reachable");
    assert_eq!(*out[0].entity(), cid("a"));
    assert_eq!(mv.state.len(), 1);
}
