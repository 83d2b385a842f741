use std::cell::Cell;

use kotoba::agent::{
    build_prompt, parse_action, session_to_quads, AgentSession, InferenceEngine, PregelReActRunner,
    ReActRunner, ReActStep,
};
use kotoba::cid::KotobaCid;

struct Fixed(&'static str);

impl InferenceEngine for Fixed {
    fn infer(&self, _prompt: &str, _max_tokens: usize) -> Result<String, String> {
        Ok(self.0.to_string())
    }
}

struct Counter {
    responses: Vec<&'static str>,
    next: Cell<usize>,
}

impl InferenceEngine for Counter {
    fn infer(&self, _prompt: &str, _max_tokens: usize) -> Result<String, String> {
        let idx = self.next.get();
        let r = self.responses.get(idx).copied().unwrap_or("finish(done)");
        self.next.set(idx + 1);
        Ok(r.to_string())
    }
}

struct Failing;

impl InferenceEngine for Failing {
    fn infer(&self, _prompt: &str, _max_tokens: usize) -> Result<String, String> {
        Err("offline".to_string())
    }
}

fn make_engine(response: &'static str) -> Fixed {
    Fixed(response)
}

fn counter_engine(responses: Vec<&'static str>) -> Counter {
    Counter { responses, next: Cell::new(0) }
}

fn graph() -> KotobaCid {
    KotobaCid::from_bytes(b"test-graph")
}

#[test]
fn simple_finish_on_first_step() {
    let runner = ReActRunner::new(make_engine("finish(the answer is 42)"), 128);
    let session = AgentSession::new("test task", graph(), 10);
    let result = runner.run(session);
    assert!(matches!(result.steps.last(), Some(ReActStep::Finish { .. })));
}

#[test]
fn simple_assert_then_finish() {
    let engine = counter_engine(vec!["kqe.assert(some fact)", "finish(done)"]);
    let runner = ReActRunner::new(engine, 128);
    let session = AgentSession::new("test", graph(), 10);
    let result = runner.run(session);
    let n_obs = result.steps.iter().filter(|s| matches!(s, ReActStep::Observation { .. })).count();
    assert_eq!(n_obs, 1);
    assert!(matches!(result.steps.last(), Some(ReActStep::Finish { .. })));
}

#[test]
fn simple_max_steps_terminates() {
    let runner = ReActRunner::new(make_engine("kqe.query(*)"), 64);
    let session = AgentSession::new("loop", graph(), 3);
    let result = runner.run(session);
    assert!(matches!(result.steps.last(), Some(ReActStep::Finish { .. })));
}

#[test]
fn simple_max_steps_answer_names_limit() {
    let runner = ReActRunner::new(make_engine("kqe.query(*)"), 64);
    let result = runner.run(AgentSession::new("loop", graph(), 2));
    assert_eq!(result.steps.len(), 2 * 3 + 1);
    match result.steps.last() {
        Some(ReActStep::Finish { answer }) => assert_eq!(answer, "max_steps=2 reached"),
        other => panic!("unexpected {other:?}"),
    }
    match &result.steps[2] {
        ReActStep::Observation { output } => assert_eq!(output, "no quads in arrangement"),
        other => panic!("unexpected {other:?}"),
    }
}

#[test]
fn simple_assert_reports_arrangement_size() {
    let engine = counter_engine(vec!["kqe.assert(fact-a)", "kqe.assert(fact-a)", "kqe.assert(fact-b)"]);
    let runner = ReActRunner::new(engine, 64);
    let result = runner.run(AgentSession::new("t", graph(), 3));
    assert_eq!(result.arrangement.len(), 2);
    match &result.steps[8] {
        ReActStep::Observation { output } => assert_eq!(output, "asserted; arrangement has 2 quads"),
        other => panic!("unexpected {other:?}"),
    }
}

#[test]
fn inference_errors_are_observed() {
    let runner = ReActRunner::new(Failing, 64);
    let result = runner.run(AgentSession::new("t", graph(), 2));
    match &result.steps[0] {
        ReActStep::Observation { output } => assert_eq!(output, "inference error: offline"),
        other => panic!("unexpected {other:?}"),
    }
    assert!(matches!(result.steps.last(), Some(ReActStep::Finish { .. })));
}

#[test]
fn unknown_tool_and_publish_observations() {
    let engine = counter_engine(vec!["web.search(x)", "kse.publish(topic, message)"]);
    let runner = ReActRunner::new(engine, 64);
    let result = runner.run(AgentSession::new("t", graph(), 2));
    match &result.steps[2] {
        ReActStep::Observation { output } => assert_eq!(output, "unknown tool: web.search"),
        other => panic!("unexpected {other:?}"),
    }
    match &result.steps[5] {
        ReActStep::Observation { output } => assert_eq!(output, "published: topic, message"),
        other => panic!("unexpected {other:?}"),
    }
}

#[test]
fn pregel_finish_on_first_superstep() {
    let runner = PregelReActRunner::new(make_engine("finish(pregel answer)"), 128);
    let session = AgentSession::new("pregel test", graph(), 5);
    let (result, supersteps) = runner.run(session);

    assert!(matches!(result.steps.last(), Some(ReActStep::Finish { .. })));
    if let Some(ReActStep::Finish { answer }) = result.steps.last() {
        assert!(answer.contains("pregel answer"), "got: {answer}");
    }
    assert_eq!(supersteps.len(), 1, "expected 1 superstep, got {}", supersteps.len());
    assert!(supersteps[0].all_halted);
}

#[test]
fn pregel_assert_then_finish() {
    let engine = counter_engine(vec!["kqe.assert(alice knows bob)", "finish(stored)"]);
    let runner = PregelReActRunner::new(engine, 128);
    let session = AgentSession::new("store a fact", graph(), 5);
    let (result, supersteps) = runner.run(session);

    let n_obs = result.steps.iter().filter(|s| matches!(s, ReActStep::Observation { .. })).count();
    assert_eq!(n_obs, 1);
    assert!(matches!(result.steps.last(), Some(ReActStep::Finish { .. })));
    assert_eq!(supersteps.len(), 2, "superstep 1=assert, superstep 2=finish");
    assert_eq!(result.arrangement.len(), 1);
}

#[test]
fn pregel_query_after_assert() {
    let engine = counter_engine(vec!["kqe.assert(alice knows bob)", "kqe.query(*)", "finish(queried)"]);
    let runner = PregelReActRunner::new(engine, 128);
    let session = AgentSession::new("assert then query", graph(), 5);
    let (result, supersteps) = runner.run(session);

    assert!(matches!(result.steps.last(), Some(ReActStep::Finish { .. })));
    assert_eq!(supersteps.len(), 3);
}

#[test]
fn pregel_max_steps_terminates() {
    let runner = PregelReActRunner::new(make_engine("kqe.query(*)"), 64);
    let session = AgentSession::new("infinite loop", graph(), 3);
    let (result, _) = runner.run(session);
    assert!(matches!(result.steps.last(), Some(ReActStep::Finish { .. })));
}

#[test]
fn pregel_limit_takes_one_extra_superstep() {
    let runner = PregelReActRunner::new(make_engine("kqe.query(*)"), 64);
    let (result, supersteps) = runner.run(AgentSession::new("infinite loop", graph(), 3));
    assert_eq!(supersteps.len(), 4);
    assert!(supersteps[..3].iter().all(|s| !s.all_halted && s.messages_sent == 1));
    assert!(supersteps[3].all_halted);
    match result.steps.last() {
        Some(ReActStep::Finish { answer }) => assert_eq!(answer, "pregel max_steps=3 reached"),
        other => panic!("unexpected {other:?}"),
    }
}

#[test]
fn pregel_superstep_count_matches_cycles() {
    let engine = counter_engine(vec!["kqe.assert(fact-a)", "kqe.assert(fact-b)", "finish(both stored)"]);
    let runner = PregelReActRunner::new(engine, 64);
    let session = AgentSession::new("two asserts", graph(), 5);
    let (result, supersteps) = runner.run(session);

    assert!(matches!(result.steps.last(), Some(ReActStep::Finish { .. })));
    assert_eq!(supersteps.len(), 3);
    assert_eq!(result.arrangement.len(), 2, "both quads should be in arrangement");
}

#[test]
fn pregel_query_lists_quad_log() {
    let engine = counter_engine(vec!["kqe.assert(a\"b)", "kqe.query(*)"]);
    let runner = PregelReActRunner::new(engine, 64);
    let (result, _) = runner.run(AgentSession::new("t", graph(), 5));
    let subject = KotobaCid::from_bytes(b"a\"b").to_multibase();
    match &result.steps[2] {
        ReActStep::Observation { output } => assert_eq!(output, "asserted; quad log now has 1 entries"),
        other => panic!("unexpected {other:?}"),
    }
    match &result.steps[5] {
        ReActStep::Observation { output } => {
            assert_eq!(output, &format!("1 quads: [({subject} agent/fact {{\"Text\":\"a\\\"b\"}})]"))
        }
        other => panic!("unexpected {other:?}"),
    }
}

#[test]
fn pregel_errors_do_not_count_as_cycles() {
    let runner = PregelReActRunner::new(Failing, 64);
    let (result, supersteps) = runner.run(AgentSession::new("t", graph(), 2));
    assert_eq!(supersteps.len(), 3);
    assert!(supersteps.iter().all(|s| !s.all_halted));
    assert!(matches!(result.steps.last(), Some(ReActStep::Observation { .. })));
}

#[test]
fn parse_with_action_prefix() {
    let (tool, input) = parse_action("Action: finish(hello world)");
    assert_eq!(tool, "finish");
    assert_eq!(input, "hello world");
}

#[test]
fn parse_direct() {
    let (tool, input) = parse_action("kqe.query(some datalog)");
    assert_eq!(tool, "kqe.query");
    assert_eq!(input, "some datalog");
}

#[test]
fn parse_without_call_is_finish() {
    assert_eq!(parse_action("  just an answer \nmore"), ("finish".to_string(), "just an answer".to_string()));
    assert_eq!(parse_action("(no tool)"), ("finish".to_string(), "(no tool)".to_string()));
    assert_eq!(parse_action(""), ("finish".to_string(), "".to_string()));
}

#[test]
fn parse_trims_tool_and_input() {
    assert_eq!(parse_action("Action:  kse.publish ( t , m ) "), ("kse.publish".to_string(), "t , m".to_string()));
}

#[test]
fn session_quads_count_matches_steps() {
    let engine = make_engine("finish(ok)");
    let runner = PregelReActRunner::new(engine, 64);
    let session = AgentSession::new("t", graph(), 5);
    let (result, _) = runner.run(session);
    let deltas = session_to_quads(&result);
    assert_eq!(deltas.len(), result.steps.len());
    assert!(deltas.iter().all(|d| d.is_assert()));
}

#[test]
fn session_quads_name_each_step() {
    let runner = ReActRunner::new(make_engine("finish(ok)"), 64);
    let result = runner.run(AgentSession::new("t", graph(), 5));
    let deltas = session_to_quads(&result);
    assert_eq!(deltas[1].attribute(), "agent/step/1");
    assert_eq!(*deltas[1].entity(), result.session_cid);
    match &deltas[1].datom.v {
        kotoba::quad::QuadObject::Text(t) => assert_eq!(t, "action:finish(ok)"),
        other => panic!("unexpected {other:?}"),
    }
}

#[test]
fn session_cid_uses_first_64_task_bytes() {
    let long = "x".repeat(100);
    let s = AgentSession::new(&long, graph(), 1);
    let label = format!("agent/{}/{}", graph().to_multibase(), &long[..64]);
    assert_eq!(s.session_cid, KotobaCid::from_bytes(label.as_bytes()));
    assert_eq!(s.task, long);
}

#[test]
fn prompt_lists_task_and_steps() {
    let steps = vec![
        ReActStep::Thought { text: "t".to_string() },
        ReActStep::Action { tool: "kqe.query".to_string(), input: "q".to_string() },
        ReActStep::Observation { output: "o".to_string() },
        ReActStep::Finish { answer: "a".to_string() },
    ];
    let p = build_prompt("do it", &steps);
    assert_eq!(
        p,
        "You are a KOTOBA agent. Use ReAct to answer the task.\n\
         Tools: kqe.assert(<quad>), kqe.query(<q>), kse.publish(<t>,<m>), finish(<answer>)\n\
         \nTask: do it\n\n\
         Thought: t\nAction: kqe.query(q)\nObservation: o\nAnswer: a\nThought:"
    );
}

#[test]
fn pregel_thoughts_stay_within_max_steps() {
    for max in 0..5u32 {
        let runner = PregelReActRunner::new(make_engine("kqe.query(*)"), 64);
        let (result, _) = runner.run(AgentSession::new("loop", graph(), max));
        let thoughts = result.steps.iter().filter(|s| matches!(s, ReActStep::Thought { .. })).count();
        assert_eq!(thoughts, max as usize);
    }
    let runner = PregelReActRunner::new(Failing, 64);
    let (result, _) = runner.run(AgentSession::new("offline", graph(), 2));
    assert_eq!(result.steps.iter().filter(|s| matches!(s, ReActStep::Thought { .. })).count(), 0);
}
