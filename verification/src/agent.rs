//! ReAct (reason and act) agent loop.
//!
//! Two backends run the same cycle (thought, action, observation):
//! `ReActRunner`, a plain loop over the session, and `PregelReActRunner`,
//! which runs one cycle per superstep of a single self-messaging vertex whose
//! state is an `AgentSnapshot`.
//!
//! Tools: `kqe.assert(<fact>)`, `kqe.query(<q>)`, `kse.publish(<t>,<m>)` and
//! `finish(<answer>)`, which ends the run.
use vstd::prelude::*;
use vstd::utf8::*;
use crate::cid::{cid_bytes_of, multibase_of, KotobaCid};
use crate::codec::json_text;
use crate::debug_text::{debug_object, push_object_debug};
use crate::datom::{
    datom_of_quad, graph_quads, insert_view, quads_view, Arrangement, DatomView, Delta, DeltaView,
};
use crate::quad::{ObjectView, Quad, QuadObject, QuadView};
use crate::text::{
    chars_of, decimal, find_char, has_prefix, json_string, occurs_in, push_chars, push_decimal,
    push_str_chars, strip_prefix, strip_prefix_chars, strip_suffix, strip_suffix_chars,
    string_from_chars, sub_chars, take_until, trim, trim_chars,
};

verus! {

/// One step of a ReAct run.
#[derive(Debug)]
pub enum ReActStep {
    Thought { text: String },
    Action { tool: String, input: String },
    Observation { output: String },
    Finish { answer: String },
}

/// Mathematical model of a step.
pub enum StepView {
    Thought(Seq<char>),
    Action(Seq<char>, Seq<char>),
    Observation(Seq<char>),
    Finish(Seq<char>),
}

impl View for ReActStep {
    type V = StepView;

    open spec fn view(&self) -> StepView {
        match self {
            ReActStep::Thought { text } => StepView::Thought(text@),
            ReActStep::Action { tool, input } => StepView::Action(tool@, input@),
            ReActStep::Observation { output } => StepView::Observation(output@),
            ReActStep::Finish { answer } => StepView::Finish(answer@),
        }
    }
}

/// The models of a sequence of steps.
pub open spec fn steps_view(s: Seq<ReActStep>) -> Seq<StepView> {
    s.map_values(|x: ReActStep| x@)
}

impl ReActStep {
    /// A copy with the same model.
    pub fn duplicate(&self) -> (r: ReActStep)
        ensures
            r@ == self@,
    {
        match self {
            ReActStep::Thought { text } => ReActStep::Thought { text: text.clone() },
            ReActStep::Action { tool, input } => ReActStep::Action {
                tool: tool.clone(),
                input: input.clone(),
            },
            ReActStep::Observation { output } => ReActStep::Observation { output: output.clone() },
            ReActStep::Finish { answer } => ReActStep::Finish { answer: answer.clone() },
        }
    }
}

/// The state of one agent run.
pub struct AgentSession {
    pub session_cid: KotobaCid,
    pub graph_cid: KotobaCid,
    pub task: String,
    pub steps: Vec<ReActStep>,
    pub arrangement: Arrangement,
    pub max_steps: u32,
}

/// Mathematical model of a session.
pub struct SessionView {
    pub session_cid: Seq<u8>,
    pub graph_cid: Seq<u8>,
    pub task: Seq<char>,
    pub steps: Seq<StepView>,
    pub arrangement: Seq<DatomView>,
    pub max_steps: u32,
}

impl View for AgentSession {
    type V = SessionView;

    open spec fn view(&self) -> SessionView {
        SessionView {
            session_cid: self.session_cid.0@,
            graph_cid: self.graph_cid.0@,
            task: self.task@,
            steps: steps_view(self.steps@),
            arrangement: self.arrangement@,
            max_steps: self.max_steps,
        }
    }
}

/// The task as it enters the session identifier: its first 64 bytes.
pub open spec fn task_label(task: Seq<char>) -> Seq<char> {
    if encode_utf8(task).len() <= 64 {
        task
    } else {
        decode_utf8(encode_utf8(task).subrange(0, 64))
    }
}

/// The text whose identifier names a session: `agent/<graph>/<task prefix>`.
pub open spec fn session_label(graph: Seq<u8>, task: Seq<char>) -> Seq<char> {
    "agent/"@ + multibase_of(graph) + "/"@ + task_label(task)
}

impl AgentSession {
    /// A fresh session for `task` on a graph, with no steps and an empty
    /// arrangement. Its identifier is that of the text
    /// `agent/<graph multibase>/<first 64 bytes of task>`.
    pub fn new(task: &str, graph_cid: KotobaCid, max_steps: u32) -> (s: AgentSession)
        requires
            encode_utf8(task@).len() <= 64 || is_char_boundary(encode_utf8(task@), 64),
        ensures
            s.session_cid.0@ == cid_bytes_of(encode_utf8(session_label(graph_cid.0@, task@))),
            s.graph_cid == graph_cid,
            s.task@ == task@,
            s.steps@.len() == 0,
            s.arrangement@.len() == 0,
            s.max_steps == max_steps,
    {
        let task_bytes = task.as_bytes();
        let label_task: &str = if task_bytes.len() <= 64 {
            task
        } else {
            let (head, _) = task.split_at(64);
            proof {
                broadcast use encode_utf8_decode_utf8, encode_utf8_valid_utf8;
                assert(encode_utf8(head@) == encode_utf8(task@).subrange(0, 64));
                assert(decode_utf8(encode_utf8(head@)) == head@);
            }
            head
        };
        assert(label_task@ == task_label(task@));
        let mut cs: Vec<char> = Vec::new();
        push_str_chars(&mut cs, "agent/");
        let mb = graph_cid.to_multibase();
        push_str_chars(&mut cs, mb.as_str());
        push_str_chars(&mut cs, "/");
        push_str_chars(&mut cs, label_task);
        let label = string_from_chars(&cs);
        assert(label@ =~= session_label(graph_cid.0@, task@));
        let session_cid = KotobaCid::from_bytes(label.as_str().as_bytes());
        AgentSession {
            session_cid,
            graph_cid,
            task: task.to_owned(),
            steps: Vec::new(),
            arrangement: Arrangement::new(),
            max_steps,
        }
    }
}

/// The line a step contributes to a prompt.
pub open spec fn step_line(s: StepView) -> Seq<char> {
    match s {
        StepView::Thought(t) => "Thought: "@ + t + "\n"@,
        StepView::Action(tool, input) => "Action: "@ + tool + "("@ + input + ")\n"@,
        StepView::Observation(o) => "Observation: "@ + o + "\n"@,
        StepView::Finish(a) => "Answer: "@ + a + "\n"@,
    }
}

/// The lines of all steps, in order.
pub open spec fn step_lines(steps: Seq<StepView>) -> Seq<char>
    decreases steps.len(),
{
    if steps.len() == 0 {
        Seq::empty()
    } else {
        step_lines(steps.drop_last()) + step_line(steps.last())
    }
}

/// The prompt for the next thought: instructions, the task, every step so
/// far, and an open `Thought:`.
pub open spec fn prompt_of(task: Seq<char>, steps: Seq<StepView>) -> Seq<char> {
    "You are a KOTOBA agent. Use ReAct to answer the task.\n"@
        + "Tools: kqe.assert(<quad>), kqe.query(<q>), kse.publish(<t>,<m>), finish(<answer>)\n"@
        + "\nTask: "@ + task + "\n\n"@ + step_lines(steps) + "Thought:"@
}

fn push_step_line(out: &mut Vec<char>, step: &ReActStep)
    ensures
        final(out)@ == old(out)@ + step_line(step@),
{
    let ghost start = out@;
    match step {
        ReActStep::Thought { text } => {
            push_str_chars(out, "Thought: ");
            push_str_chars(out, text.as_str());
            push_str_chars(out, "\n");
        },
        ReActStep::Action { tool, input } => {
            push_str_chars(out, "Action: ");
            push_str_chars(out, tool.as_str());
            push_str_chars(out, "(");
            push_str_chars(out, input.as_str());
            push_str_chars(out, ")\n");
        },
        ReActStep::Observation { output } => {
            push_str_chars(out, "Observation: ");
            push_str_chars(out, output.as_str());
            push_str_chars(out, "\n");
        },
        ReActStep::Finish { answer } => {
            push_str_chars(out, "Answer: ");
            push_str_chars(out, answer.as_str());
            push_str_chars(out, "\n");
        },
    }
    assert(out@ =~= start + step_line(step@));
}

/// The prompt for the next thought of a run.
pub fn build_prompt(task: &str, steps: &Vec<ReActStep>) -> (p: String)
    ensures
        p@ == prompt_of(task@, steps_view(steps@)),
{
    let mut out: Vec<char> = Vec::new();
    push_str_chars(&mut out, "You are a KOTOBA agent. Use ReAct to answer the task.\n");
    push_str_chars(
        &mut out,
        "Tools: kqe.assert(<quad>), kqe.query(<q>), kse.publish(<t>,<m>), finish(<answer>)\n",
    );
    push_str_chars(&mut out, "\nTask: ");
    push_str_chars(&mut out, task);
    push_str_chars(&mut out, "\n\n");
    let ghost head = out@;
    for i in 0..steps.len()
        invariant
            out@ == head + step_lines(steps_view(steps@).take(i as int)),
    {
        push_step_line(&mut out, &steps[i]);
        assert(steps_view(steps@).take(i + 1).drop_last() =~= steps_view(steps@).take(i as int));
    }
    assert(steps_view(steps@).take(steps@.len() as int) =~= steps_view(steps@));
    push_str_chars(&mut out, "Thought:");
    let p = string_from_chars(&out);
    assert(p@ =~= prompt_of(task@, steps_view(steps@)));
    p
}

/// The tool and input a thought asks for. Only the first line counts, with
/// an optional `Action:` prefix; `tool(input)` names a tool when the text
/// before the first `(` is not blank (a closing `)` is dropped). Anything
/// else is read as `finish` with the whole line as the answer.
pub open spec fn action_of(text: Seq<char>) -> (Seq<char>, Seq<char>) {
    let line = trim(strip_prefix(trim(take_until(text, '\n')), "Action:"@));
    let head = take_until(line, '(');
    let tool = trim(head);
    if head.len() < line.len() && tool.len() > 0 {
        (tool, trim(strip_suffix(line.skip(head.len() as int + 1), ")"@)))
    } else {
        ("finish"@, line)
    }
}

/// Splits a thought into the tool it calls and that tool's input.
pub fn parse_action(text: &str) -> (r: (String, String))
    ensures
        (r.0@, r.1@) == action_of(text@),
{
    let cs = chars_of(text);
    let nl = find_char(&cs, '\n');
    let first = sub_chars(&cs, 0, nl);
    let first = trim_chars(&first);
    let prefix = chars_of("Action:");
    let line = strip_prefix_chars(&first, &prefix);
    let line = trim_chars(&line);
    let paren = find_char(&line, '(');
    if paren < line.len() {
        let head = sub_chars(&line, 0, paren);
        let tool = trim_chars(&head);
        if tool.len() > 0 {
            let rest = sub_chars(&line, paren + 1, line.len());
            let close = chars_of(")");
            let input = strip_suffix_chars(&rest, &close);
            let input = trim_chars(&input);
            assert(line@.subrange(paren + 1, line@.len() as int) =~= line@.skip(paren + 1));
            return (string_from_chars(&tool), string_from_chars(&input));
        }
    }
    (String::from_str("finish"), string_from_chars(&line))
}

/// The text a step is stored as.
pub open spec fn step_text(s: StepView) -> Seq<char> {
    match s {
        StepView::Thought(t) => "thought:"@ + t,
        StepView::Action(tool, input) => "action:"@ + tool + "("@ + input + ")"@,
        StepView::Observation(o) => "observation:"@ + o,
        StepView::Finish(a) => "finish:"@ + a,
    }
}

/// The quad recording step `i` of a session: subject the session, predicate
/// `agent/step/<i>`, object the step's text, in the session's graph.
pub open spec fn step_quad(s: SessionView, i: int) -> QuadView {
    QuadView {
        graph: s.graph_cid,
        subject: s.session_cid,
        predicate: "agent/step/"@ + decimal(i as nat),
        object: ObjectView::Text(step_text(s.steps[i])),
    }
}

fn step_text_of(step: &ReActStep) -> (t: String)
    ensures
        t@ == step_text(step@),
{
    let mut out: Vec<char> = Vec::new();
    match step {
        ReActStep::Thought { text } => {
            push_str_chars(&mut out, "thought:");
            push_str_chars(&mut out, text.as_str());
        },
        ReActStep::Action { tool, input } => {
            push_str_chars(&mut out, "action:");
            push_str_chars(&mut out, tool.as_str());
            push_str_chars(&mut out, "(");
            push_str_chars(&mut out, input.as_str());
            push_str_chars(&mut out, ")");
        },
        ReActStep::Observation { output } => {
            push_str_chars(&mut out, "observation:");
            push_str_chars(&mut out, output.as_str());
        },
        ReActStep::Finish { answer } => {
            push_str_chars(&mut out, "finish:");
            push_str_chars(&mut out, answer.as_str());
        },
    }
    let t = string_from_chars(&out);
    assert(t@ =~= step_text(step@));
    t
}

/// The history of a session as deltas: one asserted quad per step, in order.
pub fn session_to_quads(session: &AgentSession) -> (r: Vec<Delta>)
    ensures
        r@.len() == session.steps@.len(),
        forall|i: int| 0 <= i < r@.len() ==> (#[trigger] r@[i])@ == (DeltaView {
            datom: datom_of_quad(step_quad(session@, i)),
            added: true,
        }),
{
    let mut r: Vec<Delta> = Vec::new();
    let n = session.steps.len();
    for i in 0..n
        invariant
            n == session.steps@.len(),
            r@.len() == i,
            forall|k: int| 0 <= k < i ==> (#[trigger] r@[k])@ == (DeltaView {
                datom: datom_of_quad(step_quad(session@, k)),
                added: true,
            }),
    {
        let mut pred: Vec<char> = Vec::new();
        push_str_chars(&mut pred, "agent/step/");
        push_decimal(&mut pred, i as u64);
        let q = Quad {
            graph: session.graph_cid,
            subject: session.session_cid,
            predicate: string_from_chars(&pred),
            object: QuadObject::Text(step_text_of(&session.steps[i])),
        };
        assert(q@.predicate =~= "agent/step/"@ + decimal(i as nat));
        assert(steps_view(session.steps@)[i as int] == session.steps@[i as int]@);
        assert(q@ == step_quad(session@, i as int));
        r.push(Delta::assert_quad(q));
    }
    r
}

/// The fact a `kqe.assert` input denotes when it is not a JSON quad: in graph
/// `g`, subject the identifier of the input's bytes, predicate `agent/fact`,
/// object the input as text.
pub open spec fn fact_quad(g: Seq<u8>, input: Seq<char>) -> QuadView {
    QuadView {
        graph: g,
        subject: cid_bytes_of(encode_utf8(input)),
        predicate: "agent/fact"@,
        object: ObjectView::Text(input),
    }
}

fn fact_of(graph_cid: &KotobaCid, input: &str) -> (q: Quad)
    ensures
        q@ == fact_quad(graph_cid.0@, input@),
{
    Quad {
        graph: *graph_cid,
        subject: KotobaCid::from_bytes(input.as_bytes()),
        predicate: String::from_str("agent/fact"),
        object: QuadObject::Text(input.to_owned()),
    }
}

/// What `kqe.assert` reports once the arrangement holds `n` datoms.
pub open spec fn assert_obs(n: nat) -> Seq<char> {
    "asserted; arrangement has "@ + decimal(n) + " quads"@
}

/// `kqe.assert` on an arrangement: adds the input's fact, reports the size.
/// The input is always taken as text: reading it as a JSON-encoded quad would
/// need the serde form of `Quad` (which rests on the identifier type's own
/// serde form and on float variants) parsed into the library's types, and
/// such a parse is not made in this library.
pub fn exec_assert(arr: &mut Arrangement, graph_cid: &KotobaCid, input: &str) -> (obs: String)
    ensures
        final(arr)@ == insert_view(old(arr)@, datom_of_quad(fact_quad(graph_cid.0@, input@))),
        obs@ == assert_obs(final(arr)@.len()),
{
    let q = fact_of(graph_cid, input);
    arr.insert(&q);
    let mut out: Vec<char> = Vec::new();
    push_str_chars(&mut out, "asserted; arrangement has ");
    push_decimal(&mut out, arr.len() as u64);
    push_str_chars(&mut out, " quads");
    let obs = string_from_chars(&out);
    assert(obs@ =~= assert_obs(arr@.len()));
    obs
}

/// How a quad is previewed: `(<subject> <predicate> <object debug>)`.
pub open spec fn quad_preview(q: QuadView) -> Seq<char> {
    "("@ + multibase_of(q.subject) + " "@ + q.predicate + " "@ + debug_object(q.object) + ")"@
}

/// Previews joined by `", "`.
pub open spec fn joined_previews(qs: Seq<QuadView>) -> Seq<char>
    decreases qs.len(),
{
    if qs.len() == 0 {
        Seq::empty()
    } else if qs.len() == 1 {
        quad_preview(qs[0])
    } else {
        joined_previews(qs.drop_last()) + ", "@ + quad_preview(qs.last())
    }
}

/// The count, up to five previews, and `", ..."` when more are held.
pub open spec fn listing(n: nat, shown: Seq<char>) -> Seq<char> {
    decimal(n) + " quads: ["@ + shown + (if n > 5 {
        ", ..."@
    } else {
        ""@
    }) + "]"@
}

/// What `kqe.query` reports about the quads of the session's graph.
pub open spec fn query_obs(qs: Seq<QuadView>) -> Seq<char> {
    if qs.len() == 0 {
        "no quads in arrangement"@
    } else {
        listing(qs.len(), joined_previews(qs.take(if qs.len() > 5 { 5 } else { qs.len() as int })))
    }
}

proof fn lemma_previews_start(qs: Seq<QuadView>)
    requires
        qs.len() > 0,
    ensures
        has_prefix(joined_previews(qs), quad_preview(qs[0])),
    decreases qs.len(),
{
    let p = quad_preview(qs[0]);
    if qs.len() > 1 {
        assert(qs.drop_last()[0] == qs[0]);
        lemma_previews_start(qs.drop_last());
        let j = joined_previews(qs.drop_last());
        assert(joined_previews(qs) =~= j + ", "@ + quad_preview(qs.last()));
        assert(joined_previews(qs).take(p.len() as int) =~= j.take(p.len() as int));
    } else {
        assert(joined_previews(qs).take(p.len() as int) =~= p);
    }
}

proof fn lemma_previews_hold(qs: Seq<QuadView>, i: int)
    requires
        0 <= i < qs.len(),
    ensures
        occurs_in(joined_previews(qs), quad_preview(qs[i])),
    decreases qs.len(),
{
    let p = quad_preview(qs[i]);
    let e = Seq::<char>::empty();
    if qs.len() == 1 {
        assert(e + p + e == joined_previews(qs));
    } else if i == qs.len() - 1 {
        let pre = joined_previews(qs.drop_last()) + ", "@;
        assert(pre + p + e == joined_previews(qs));
    } else {
        let d = qs.drop_last();
        assert(d[i] == qs[i]);
        lemma_previews_hold(d, i);
        let (pre, post) = choose|pre: Seq<char>, post: Seq<char>| #[trigger] (pre + p + post)
            == joined_previews(d);
        let post2 = post + ", "@ + quad_preview(qs.last());
        assert(pre + p + post2 =~= joined_previews(qs));
    }
}

/// `kqe.query` on a graph that holds quads reports their count, then shows
/// each of the first five whole, in brackets: the multibase text of its
/// subject, its predicate and the `Debug` text of its object; the first one
/// right after the count.
pub proof fn lemma_query_shows_quads(qs: Seq<QuadView>)
    requires
        qs.len() > 0,
    ensures
        has_prefix(
            query_obs(qs),
            decimal(qs.len()) + " quads: ["@ + "("@ + multibase_of(qs[0].subject) + " "@
                + qs[0].predicate + " "@ + debug_object(qs[0].object) + ")"@,
        ),
        forall|i: int|
            0 <= i < qs.len() && i < 5 ==> occurs_in(
                query_obs(qs),
                "("@ + multibase_of(#[trigger] qs[i].subject) + " "@ + qs[i].predicate + " "@
                    + debug_object(qs[i].object) + ")"@,
            ),
{
    let m: int = if qs.len() > 5 { 5 } else { qs.len() as int };
    let shown = qs.take(m);
    let head = decimal(qs.len()) + " quads: ["@;
    let tail = (if qs.len() > 5 { ", ..."@ } else { ""@ }) + "]"@;
    let j = joined_previews(shown);
    assert(query_obs(qs) =~= head + j + tail);
    assert(shown[0] == qs[0]);
    lemma_previews_start(shown);
    let p0 = quad_preview(qs[0]);
    let want = decimal(qs.len()) + " quads: ["@ + "("@ + multibase_of(qs[0].subject) + " "@
        + qs[0].predicate + " "@ + debug_object(qs[0].object) + ")"@;
    assert(j.take(p0.len() as int) == p0);
    assert(want =~= head + p0);
    assert(want =~= query_obs(qs).take(want.len() as int));
    assert forall|i: int| 0 <= i < qs.len() && i < 5 implies occurs_in(
        query_obs(qs),
        "("@ + multibase_of(#[trigger] qs[i].subject) + " "@ + qs[i].predicate + " "@ + debug_object(
            qs[i].object,
        ) + ")"@,
    ) by {
        assert(shown[i] == qs[i]);
        lemma_previews_hold(shown, i);
        let p = quad_preview(qs[i]);
        let (pre, post) = choose|pre: Seq<char>, post: Seq<char>| #[trigger] (pre + p + post) == j;
        assert((head + pre) + p + (post + tail) =~= query_obs(qs));
    }
}

fn push_tail(out: &mut Vec<char>, n: usize)
    ensures
        final(out)@ == old(out)@ + (if n > 5 {
            ", ..."@
        } else {
            ""@
        }) + "]"@,
{
    let ghost start = out@;
    if n > 5 {
        push_str_chars(out, ", ...");
    } else {
        push_str_chars(out, "");
    }
    push_str_chars(out, "]");
    assert(out@ =~= start + (if n > 5 {
        ", ..."@
    } else {
        ""@
    }) + "]"@);
}

/// `kqe.query` on an arrangement: lists the quads of the session's graph.
pub fn exec_query(arr: &Arrangement, graph_cid: &KotobaCid) -> (obs: String)
    ensures
        obs@ == query_obs(graph_quads(arr@, graph_cid.0@)),
{
    let quads = arr.quads(graph_cid);
    let ghost qs = graph_quads(arr@, graph_cid.0@);
    if quads.len() == 0 {
        return String::from_str("no quads in arrangement");
    }
    let shown: usize = if quads.len() > 5 { 5 } else { quads.len() };
    let mut body: Vec<char> = Vec::new();
    for i in 0..shown
        invariant
            shown <= quads@.len(),
            quads_view(quads@) == qs,
            body@ == joined_previews(qs.take(i as int)),
    {
        let q = &quads[i];
        let ghost before = body@;
        if i > 0 {
            push_str_chars(&mut body, ", ");
        }
        push_str_chars(&mut body, "(");
        let mb = q.subject.to_multibase();
        push_str_chars(&mut body, mb.as_str());
        push_str_chars(&mut body, " ");
        push_str_chars(&mut body, q.predicate.as_str());
        push_str_chars(&mut body, " ");
        push_object_debug(&mut body, &q.object);
        push_str_chars(&mut body, ")");
        assert(qs[i as int] == q@);
        assert(qs.take(i + 1).drop_last() =~= qs.take(i as int));
        if i > 0 {
            assert(body@ =~= before + ", "@ + quad_preview(q@));
        } else {
            assert(body@ =~= quad_preview(q@));
        }
    }
    let mut out: Vec<char> = Vec::new();
    push_decimal(&mut out, quads.len() as u64);
    push_str_chars(&mut out, " quads: [");
    push_chars(&mut out, &body);
    push_tail(&mut out, quads.len());
    let obs = string_from_chars(&out);
    assert(obs@ =~= query_obs(qs));
    obs
}

/// The largest character boundary of `b` not above `n`.
pub open spec fn floor_boundary(b: Seq<u8>, n: int) -> int
    decreases n,
{
    if n <= 0 || is_char_boundary(b, n) {
        if n <= 0 { 0 } else { n }
    } else {
        floor_boundary(b, n - 1)
    }
}

/// The input as a publish observation quotes it: at most its first 64 bytes,
/// cut back to a character boundary when the 64th byte is inside a character.
pub open spec fn publish_cut(input: Seq<char>) -> Seq<char> {
    let b = encode_utf8(input);
    if b.len() <= 64 {
        input
    } else {
        decode_utf8(b.subrange(0, floor_boundary(b, 64)))
    }
}

/// What `kse.publish` reports.
pub open spec fn publish_obs(input: Seq<char>) -> Seq<char> {
    "published: "@ + publish_cut(input)
}

fn publish_observation(input: &str) -> (obs: String)
    ensures
        obs@ == publish_obs(input@),
{
    proof {
        broadcast use encode_utf8_decode_utf8, encode_utf8_valid_utf8;
    }
    let bytes = input.as_bytes();
    let cut: &str = if bytes.len() <= 64 {
        input
    } else {
        let mut k: usize = 64;
        while k > 0 && !input.is_char_boundary(k)
            invariant
                k <= 64 < encode_utf8(input@).len(),
                valid_utf8(encode_utf8(input@)),
                floor_boundary(encode_utf8(input@), 64) == floor_boundary(encode_utf8(input@), k as int),
            decreases k,
        {
            k -= 1;
        }
        let (head, _) = input.split_at(k);
        assert(encode_utf8(head@) == encode_utf8(input@).subrange(0, k as int));
        assert(decode_utf8(encode_utf8(head@)) == head@);
        head
    };
    assert(cut@ == publish_cut(input@));
    let mut out: Vec<char> = Vec::new();
    push_str_chars(&mut out, "published: ");
    push_str_chars(&mut out, cut);
    let obs = string_from_chars(&out);
    assert(obs@ =~= publish_obs(input@));
    obs
}

/// What an unknown tool call reports.
pub open spec fn unknown_obs(tool: Seq<char>) -> Seq<char> {
    "unknown tool: "@ + tool
}

/// What a failed inference reports.
pub open spec fn error_obs(e: Seq<char>) -> Seq<char> {
    "inference error: "@ + e
}

fn prefixed(prefix: &str, rest: &str) -> (s: String)
    ensures
        s@ == prefix@ + rest@,
{
    let mut out: Vec<char> = Vec::new();
    push_str_chars(&mut out, prefix);
    push_str_chars(&mut out, rest);
    string_from_chars(&out)
}

/// What inference answered: a completion, or an error message.
pub type ReplyView = Result<Seq<char>, Seq<char>>;

/// The model of an inference reply.
pub open spec fn reply_view(r: Result<String, String>) -> ReplyView {
    match r {
        Ok(t) => Ok(t@),
        Err(e) => Err(e@),
    }
}

/// The session with its steps replaced.
pub open spec fn with_steps(s: SessionView, steps: Seq<StepView>) -> SessionView {
    SessionView { steps, ..s }
}

/// The session after one cycle of the plain runner on `reply`.
pub open spec fn cycle_state(s: SessionView, reply: ReplyView) -> SessionView {
    match reply {
        Err(e) => with_steps(s, s.steps.push(StepView::Observation(error_obs(e)))),
        Ok(t) => {
            let th = trim(t);
            let tool = action_of(th).0;
            let input = action_of(th).1;
            let st = s.steps.push(StepView::Thought(th)).push(StepView::Action(tool, input));
            if tool == "finish"@ {
                with_steps(s, st.push(StepView::Finish(input)))
            } else if tool == "kqe.assert"@ {
                let arr = insert_view(s.arrangement, datom_of_quad(fact_quad(s.graph_cid, input)));
                SessionView {
                    steps: st.push(StepView::Observation(assert_obs(arr.len()))),
                    arrangement: arr,
                    ..s
                }
            } else if tool == "kqe.query"@ {
                with_steps(
                    s,
                    st.push(StepView::Observation(query_obs(graph_quads(s.arrangement, s.graph_cid)))),
                )
            } else if tool == "kse.publish"@ {
                with_steps(s, st.push(StepView::Observation(publish_obs(input))))
            } else {
                with_steps(s, st.push(StepView::Observation(unknown_obs(tool))))
            }
        },
    }
}

/// Whether the cycle on `reply` ends the run (the agent called `finish`).
pub open spec fn cycle_done(reply: ReplyView) -> bool {
    match reply {
        Err(_) => false,
        Ok(t) => action_of(trim(t)).0 == "finish"@,
    }
}

fn str_eq(a: &Vec<char>, b: &str) -> (r: bool)
    ensures
        r == (a@ == b@),
{
    let bs = chars_of(b);
    if a.len() != bs.len() {
        return false;
    }
    let mut k: usize = 0;
    while k < a.len()
        invariant
            a@.len() == bs@.len(),
            bs@ == b@,
            k <= a@.len(),
            forall|m: int| 0 <= m < k ==> a@[m] == bs@[m],
        decreases a@.len() - k,
    {
        if a[k] != bs[k] {
            assert(a@[k as int] != bs@[k as int]);
            return false;
        }
        k += 1;
    }
    assert(a@ =~= bs@);
    true
}

/// One cycle of the plain runner: records the thought and the action it
/// names, then runs the tool and records its observation; `finish` records
/// the answer and ends the run.
pub fn react_cycle(session: &mut AgentSession, reply: Result<String, String>) -> (done: bool)
    ensures
        final(session)@ == cycle_state(old(session)@, reply_view(reply)),
        done == cycle_done(reply_view(reply)),
        done ==> final(session)@.steps.last() is Finish,
{
    let ghost s0 = session@;
    match reply {
        Err(e) => {
            let obs = prefixed("inference error: ", e.as_str());
            session.steps.push(ReActStep::Observation { output: obs });
            assert(session@.steps =~= s0.steps.push(StepView::Observation(error_obs(e@))));
            false
        },
        Ok(t) => {
            let tc = chars_of(t.as_str());
            let th = trim_chars(&tc);
            let thought = string_from_chars(&th);
            let (tool, input) = parse_action(thought.as_str());
            let tool_cs = chars_of(tool.as_str());
            session.steps.push(ReActStep::Thought { text: thought });
            let is_finish = str_eq(&tool_cs, "finish");
            let is_assert = str_eq(&tool_cs, "kqe.assert");
            let is_query = str_eq(&tool_cs, "kqe.query");
            let is_publish = str_eq(&tool_cs, "kse.publish");
            let ghost tv = tool@;
            let ghost iv = input@;
            let tool_for_obs = tool.clone();
            session.steps.push(ReActStep::Action { tool, input: input.clone() });
            let ghost st = session@.steps;
            assert(st =~= s0.steps.push(StepView::Thought(trim(t@))).push(StepView::Action(tv, iv)));
            if is_finish {
                session.steps.push(ReActStep::Finish { answer: input });
                assert(session@.steps =~= st.push(StepView::Finish(iv)));
                true
            } else if is_assert {
                let obs = exec_assert(&mut session.arrangement, &session.graph_cid, input.as_str());
                session.steps.push(ReActStep::Observation { output: obs });
                assert(session@.steps =~= st.push(StepView::Observation(assert_obs(session@.arrangement.len()))));
                false
            } else if is_query {
                let obs = exec_query(&session.arrangement, &session.graph_cid);
                session.steps.push(ReActStep::Observation { output: obs });
                assert(session@.steps =~= st.push(
                    StepView::Observation(query_obs(graph_quads(s0.arrangement, s0.graph_cid))),
                ));
                false
            } else if is_publish {
                let obs = publish_observation(input.as_str());
                session.steps.push(ReActStep::Observation { output: obs });
                assert(session@.steps =~= st.push(StepView::Observation(publish_obs(iv))));
                false
            } else {
                let obs = prefixed("unknown tool: ", tool_for_obs.as_str());
                session.steps.push(ReActStep::Observation { output: obs });
                assert(session@.steps =~= st.push(StepView::Observation(unknown_obs(tv))));
                false
            }
        },
    }
}

/// A language model the agent thinks with: completes a prompt, or fails
/// with a message. What it answers is its own affair; `answers` relates each
/// reply to the prompt and token budget it answered. By default every reply
/// counts as an answer, so an engine claims nothing unless it says more.
pub trait InferenceEngine {
    /// Whether `reply` may be this engine's answer to `prompt` within
    /// `max_tokens`.
    open spec fn answers(&self, prompt: Seq<char>, max_tokens: usize, reply: ReplyView) -> bool {
        true
    }

    fn infer(&self, prompt: &str, max_tokens: usize) -> (r: Result<String, String>)
        ensures
            self.answers(prompt@, max_tokens, reply_view(r)),
    ;
}

proof fn lemma_cycles_keep_task(s: SessionView, replies: Seq<ReplyView>)
    ensures
        cycles_state(s, replies).task == s.task,
        cycles_state(s, replies).graph_cid == s.graph_cid,
        cycles_state(s, replies).max_steps == s.max_steps,
    decreases replies.len(),
{
    if replies.len() > 0 {
        lemma_cycles_keep_task(s, replies.drop_last());
    }
}

/// The prompt of cycle `i` of a plain run: the task and the steps after the
/// cycles on the first `i` replies.
pub open spec fn plain_prompt(s: SessionView, replies: Seq<ReplyView>, i: int) -> Seq<char> {
    prompt_of(s.task, cycles_state(s, replies.take(i)).steps)
}

/// Every cycle of a plain run of `s` on `replies` got its reply as the
/// engine's answer to that cycle's prompt.
#[verifier::opaque]
pub open spec fn plain_answered<E: InferenceEngine>(
    e: E,
    budget: usize,
    s: SessionView,
    replies: Seq<ReplyView>,
) -> bool {
    forall|j: int| 0 <= j < replies.len() ==> e.answers(plain_prompt(s, replies, j), budget, #[trigger] replies[j])
}

proof fn lemma_plain_answers_extend<E: InferenceEngine>(
    e: E,
    budget: usize,
    s: SessionView,
    prev: Seq<ReplyView>,
    rv: ReplyView,
)
    requires
        plain_answered(e, budget, s, prev),
        e.answers(prompt_of(s.task, cycles_state(s, prev).steps), budget, rv),
    ensures
        plain_answered(e, budget, s, prev.push(rv)),
{
    reveal(plain_answered);
    let r = prev.push(rv);
    assert forall|j: int| 0 <= j < r.len() implies e.answers(plain_prompt(s, r, j), budget, #[trigger] r[j]) by {
        assert(r.take(j) =~= prev.take(j));
        if j < prev.len() {
            assert(r[j] == prev[j]);
        } else {
            assert(r.take(j) =~= prev);
        }
    }
}

/// The session after cycles on `replies`, in order.
pub open spec fn cycles_state(s: SessionView, replies: Seq<ReplyView>) -> SessionView
    decreases replies.len(),
{
    if replies.len() == 0 {
        s
    } else {
        cycle_state(cycles_state(s, replies.drop_last()), replies.last())
    }
}

/// Whether some cycle on `replies` ended the run.
pub open spec fn cycles_done(replies: Seq<ReplyView>) -> bool {
    exists|i: int| 0 <= i < replies.len() && cycle_done(#[trigger] replies[i])
}

/// The final step of a run that used up its cycles.
pub open spec fn max_steps_answer(n: u32) -> Seq<char> {
    "max_steps="@ + decimal(n as nat) + " reached"@
}

/// `out` is how a plain run of session `s` ends when inference answers
/// `replies`: one cycle per reply, at most `max_steps` of them, none but the
/// last ending the run; a run whose cycles all continue gets a final
/// `max_steps=<n> reached` answer.
pub open spec fn plain_run(s: SessionView, replies: Seq<ReplyView>, out: SessionView) -> bool {
    &&& replies.len() <= s.max_steps
    &&& forall|i: int| 0 <= i < replies.len() - 1 ==> !cycle_done(#[trigger] replies[i])
    &&& if replies.len() > 0 && cycle_done(replies.last()) {
        out == cycles_state(s, replies)
    } else {
        &&& replies.len() == s.max_steps
        &&& out == with_steps(
            cycles_state(s, replies),
            cycles_state(s, replies).steps.push(StepView::Finish(max_steps_answer(s.max_steps))),
        )
    }
}

/// The plain ReAct loop.
pub struct ReActRunner<E: InferenceEngine> {
    inference_engine: E,
    max_tokens: usize,
}

impl<E: InferenceEngine> ReActRunner<E> {
    /// The token budget of each inference.
    pub closed spec fn token_budget(&self) -> usize {
        self.max_tokens
    }

    /// The engine the runner thinks with.
    pub closed spec fn engine(&self) -> E {
        self.inference_engine
    }

    /// A runner thinking with `inference_engine`, `max_tokens` per thought.
    pub fn new(inference_engine: E, max_tokens: usize) -> (r: ReActRunner<E>)
        ensures
            r.token_budget() == max_tokens,
            r.engine() == inference_engine,
    {
        ReActRunner { inference_engine, max_tokens }
    }

    /// Runs cycles until the agent calls `finish` or `max_steps` cycles are
    /// done. Each cycle asks the engine with the prompt of the steps so far.
    /// The run always ends with an answer.
    pub fn run(&self, session: AgentSession) -> (r: AgentSession)
        ensures
            exists|replies: Seq<ReplyView>|
                #[trigger] plain_run(session@, replies, r@) && plain_answered(
                    self.engine(),
                    self.token_budget(),
                    session@,
                    replies,
                ),
            r@.steps.len() > 0,
            r@.steps.last() is Finish,
    {
        let ghost s0 = session@;
        let mut cur = session;
        let ghost mut replies: Seq<ReplyView> = Seq::empty();
        assert(plain_answered(self.engine(), self.token_budget(), s0, replies)) by {
            reveal(plain_answered);
        }
        let mut i: u32 = 0;
        while i < cur.max_steps
            invariant
                s0 == session@,
                i <= cur.max_steps == s0.max_steps,
                replies.len() == i,
                cur@ == cycles_state(s0, replies),
                !cycles_done(replies),
                plain_answered(self.engine(), self.token_budget(), s0, replies),
            decreases cur.max_steps - i,
        {
            let prompt = build_prompt(cur.task.as_str(), &cur.steps);
            proof {
                lemma_cycles_keep_task(s0, replies);
            }
            let reply = self.inference_engine.infer(prompt.as_str(), self.max_tokens);
            let ghost rv = reply_view(reply);
            let ghost prev_replies = replies;
            let done = react_cycle(&mut cur, reply);
            proof {
                let prev = replies;
                replies = replies.push(rv);
                assert(replies.drop_last() =~= prev);
                lemma_plain_answers_extend(self.engine(), self.token_budget(), s0, prev, rv);
                if !done {
                    assert forall|k: int| 0 <= k < replies.len() implies !cycle_done(#[trigger] replies[k]) by {
                        if k < prev.len() {
                            assert(replies[k] == prev[k]);
                        }
                    }
                }
            }
            if done {
                assert(plain_run(s0, replies, cur@)) by {
                    assert forall|k: int| 0 <= k < replies.len() - 1 implies !cycle_done(#[trigger] replies[k]) by {
                        assert(replies[k] == prev_replies[k]);
                    }
                }
                return cur;
            }
            i += 1;
        }
        let mut out: Vec<char> = Vec::new();
        push_str_chars(&mut out, "max_steps=");
        push_decimal(&mut out, cur.max_steps as u64);
        push_str_chars(&mut out, " reached");
        let answer = string_from_chars(&out);
        let ghost before = cur@;
        cur.steps.push(ReActStep::Finish { answer });
        proof {
            assert(answer@ =~= max_steps_answer(s0.max_steps));
            assert(cur@.steps =~= before.steps.push(StepView::Finish(max_steps_answer(s0.max_steps))));
            if replies.len() > 0 {
                assert(!cycle_done(replies[replies.len() - 1]));
            }
            assert(plain_run(s0, replies, cur@));
        }
        cur
    }
}

/// Serializable state of the agent vertex: the task, the steps so far, the
/// quad log (subject multibase, predicate, object JSON) and the step limit.
#[derive(Debug)]
pub struct AgentSnapshot {
    pub task: String,
    pub steps: Vec<ReActStep>,
    pub quads: Vec<(String, String, String)>,
    pub max_steps: u32,
}

/// Mathematical model of a snapshot.
pub struct SnapshotView {
    pub task: Seq<char>,
    pub steps: Seq<StepView>,
    pub quads: Seq<(Seq<char>, Seq<char>, Seq<char>)>,
    pub max_steps: u32,
}

/// The models of a quad log.
pub open spec fn log_view(q: Seq<(String, String, String)>) -> Seq<(Seq<char>, Seq<char>, Seq<char>)> {
    q.map_values(|e: (String, String, String)| (e.0@, e.1@, e.2@))
}

impl View for AgentSnapshot {
    type V = SnapshotView;

    open spec fn view(&self) -> SnapshotView {
        SnapshotView {
            task: self.task@,
            steps: steps_view(self.steps@),
            quads: log_view(self.quads@),
            max_steps: self.max_steps,
        }
    }
}

/// The quad-log entry of a `kqe.assert` input: the fact's subject as
/// multibase, `agent/fact`, and the JSON of the text object.
pub open spec fn log_entry(input: Seq<char>) -> (Seq<char>, Seq<char>, Seq<char>) {
    (
        multibase_of(cid_bytes_of(encode_utf8(input))),
        "agent/fact"@,
        "{\"Text\":"@ + json_string(input) + "}"@,
    )
}

/// What `kqe.assert` reports once the log holds `n` entries.
pub open spec fn log_assert_obs(n: nat) -> Seq<char> {
    "asserted; quad log now has "@ + decimal(n) + " entries"@
}

/// How a log entry is previewed: `(<subject> <predicate> <object>)`.
pub open spec fn entry_preview(e: (Seq<char>, Seq<char>, Seq<char>)) -> Seq<char> {
    "("@ + e.0 + " "@ + e.1 + " "@ + e.2 + ")"@
}

/// Entry previews joined by `", "`.
pub open spec fn joined_entries(es: Seq<(Seq<char>, Seq<char>, Seq<char>)>) -> Seq<char>
    decreases es.len(),
{
    if es.len() == 0 {
        Seq::empty()
    } else if es.len() == 1 {
        entry_preview(es[0])
    } else {
        joined_entries(es.drop_last()) + ", "@ + entry_preview(es.last())
    }
}

/// What `kqe.query` reports about the quad log.
pub open spec fn log_query_obs(es: Seq<(Seq<char>, Seq<char>, Seq<char>)>) -> Seq<char> {
    if es.len() == 0 {
        "quad log is empty"@
    } else {
        listing(es.len(), joined_entries(es.take(if es.len() > 5 { 5 } else { es.len() as int })))
    }
}

impl AgentSnapshot {
    /// The snapshot a run starts from: the session's task, steps and limit,
    /// and an empty quad log.
    pub fn from_session(s: &AgentSession) -> (snap: AgentSnapshot)
        ensures
            snap@ == (SnapshotView {
                task: s.task@,
                steps: steps_view(s.steps@),
                quads: Seq::empty(),
                max_steps: s.max_steps,
            }),
    {
        let mut steps: Vec<ReActStep> = Vec::new();
        for i in 0..s.steps.len()
            invariant
                steps@.len() == i,
                steps_view(steps@) == steps_view(s.steps@).take(i as int),
        {
            let ghost before = steps_view(steps@);
            steps.push(s.steps[i].duplicate());
            assert(steps_view(steps@) =~= before.push(s.steps@[i as int]@));
            assert(steps_view(steps@) =~= steps_view(s.steps@).take(i + 1));
        }
        assert(steps_view(s.steps@).take(s.steps@.len() as int) =~= steps_view(s.steps@));
        let snap = AgentSnapshot {
            task: s.task.clone(),
            steps,
            quads: Vec::new(),
            max_steps: s.max_steps,
        };
        assert(snap@.quads =~= Seq::empty());
        snap
    }

    /// `kqe.assert` on the quad log: appends the input's entry, reports the size.
    /// The input is always taken as text, as in `exec_assert`; a JSON-encoded
    /// quad is not read.
    pub fn assert_quad(&mut self, input: &str) -> (obs: String)
        ensures
            final(self)@ == (SnapshotView { quads: old(self)@.quads.push(log_entry(input@)), ..old(self)@ }),
            obs@ == log_assert_obs(final(self)@.quads.len()),
    {
        let subject = KotobaCid::from_bytes(input.as_bytes()).to_multibase();
        let quoted = json_text(input);
        let mut obj: Vec<char> = Vec::new();
        push_str_chars(&mut obj, "{\"Text\":");
        push_str_chars(&mut obj, quoted.as_str());
        push_str_chars(&mut obj, "}");
        let obj = string_from_chars(&obj);
        assert(obj@ =~= "{\"Text\":"@ + json_string(input@) + "}"@);
        let ghost before = self@;
        self.quads.push((subject, String::from_str("agent/fact"), obj));
        assert(self@.quads =~= before.quads.push(log_entry(input@)));
        let mut out: Vec<char> = Vec::new();
        push_str_chars(&mut out, "asserted; quad log now has ");
        push_decimal(&mut out, self.quads.len() as u64);
        push_str_chars(&mut out, " entries");
        let obs = string_from_chars(&out);
        assert(obs@ =~= log_assert_obs(self@.quads.len()));
        obs
    }

    /// `kqe.query` on the quad log: lists up to five entries.
    pub fn query_quads(&self) -> (obs: String)
        ensures
            obs@ == log_query_obs(self@.quads),
    {
        let ghost es = self@.quads;
        let n = self.quads.len();
        if n == 0 {
            return String::from_str("quad log is empty");
        }
        let shown: usize = if n > 5 { 5 } else { n };
        let mut body: Vec<char> = Vec::new();
        for i in 0..shown
            invariant
                shown <= n == self.quads@.len(),
                es == log_view(self.quads@),
                body@ == joined_entries(es.take(i as int)),
        {
            let e = &self.quads[i];
            let ghost before = body@;
            if i > 0 {
                push_str_chars(&mut body, ", ");
            }
            push_str_chars(&mut body, "(");
            push_str_chars(&mut body, e.0.as_str());
            push_str_chars(&mut body, " ");
            push_str_chars(&mut body, e.1.as_str());
            push_str_chars(&mut body, " ");
            push_str_chars(&mut body, e.2.as_str());
            push_str_chars(&mut body, ")");
            assert(es[i as int] == (e.0@, e.1@, e.2@));
            assert(es.take(i + 1).drop_last() =~= es.take(i as int));
            if i > 0 {
                assert(body@ =~= before + ", "@ + entry_preview(es[i as int]));
            } else {
                assert(body@ =~= entry_preview(es[i as int]));
            }
        }
        let mut out: Vec<char> = Vec::new();
        push_decimal(&mut out, n as u64);
        push_str_chars(&mut out, " quads: [");
        push_chars(&mut out, &body);
        push_tail(&mut out, n);
        let obs = string_from_chars(&out);
        assert(obs@ =~= log_query_obs(es));
        obs
    }
}

/// The number of thoughts among the steps.
pub open spec fn thoughts(steps: Seq<StepView>) -> nat
    decreases steps.len(),
{
    if steps.len() == 0 {
        0
    } else {
        thoughts(steps.drop_last()) + if steps.last() is Thought {
            1nat
        } else {
            0nat
        }
    }
}

fn count_thoughts(steps: &Vec<ReActStep>) -> (n: usize)
    ensures
        n == thoughts(steps_view(steps@)),
{
    let mut n: usize = 0;
    for i in 0..steps.len()
        invariant
            n == thoughts(steps_view(steps@).take(i as int)),
            n <= i,
    {
        assert(steps_view(steps@).take(i + 1).drop_last() =~= steps_view(steps@).take(i as int));
        match &steps[i] {
            ReActStep::Thought { .. } => {
                n += 1;
            },
            _ => {},
        }
    }
    assert(steps_view(steps@).take(steps@.len() as int) =~= steps_view(steps@));
    n
}

/// Vertex state during a Pregel run: the snapshot and, for rebuilding the
/// arrangement, the asserted inputs in order.
pub struct PregelView {
    pub snap: SnapshotView,
    pub facts: Seq<Seq<char>>,
}

/// The final step of a Pregel run that reached its step limit.
pub open spec fn pregel_limit_answer(n: u32) -> Seq<char> {
    "pregel max_steps="@ + decimal(n as nat) + " reached"@
}

/// Whether the vertex has used up its cycles.
pub open spec fn at_limit(st: PregelView) -> bool {
    (thoughts(st.snap.steps) as u32) >= st.snap.max_steps
}

/// The snapshot with its steps replaced.
pub open spec fn snap_steps(s: SnapshotView, steps: Seq<StepView>) -> SnapshotView {
    SnapshotView { steps, ..s }
}

/// The vertex state after one superstep; `reply` is what inference answered
/// (not asked when the vertex is at its limit).
pub open spec fn superstep_state(st: PregelView, reply: ReplyView) -> PregelView {
    let s = st.snap;
    if at_limit(st) {
        PregelView {
            snap: snap_steps(s, s.steps.push(StepView::Finish(pregel_limit_answer(s.max_steps)))),
            ..st
        }
    } else {
        match reply {
            Err(e) => PregelView {
                snap: snap_steps(s, s.steps.push(StepView::Observation(error_obs(e)))),
                ..st
            },
            Ok(t) => {
                let th = trim(t);
                let tool = action_of(th).0;
                let input = action_of(th).1;
                let ss = s.steps.push(StepView::Thought(th)).push(StepView::Action(tool, input));
                if tool == "finish"@ {
                    PregelView { snap: snap_steps(s, ss.push(StepView::Finish(input))), ..st }
                } else if tool == "kqe.assert"@ {
                    let log = s.quads.push(log_entry(input));
                    PregelView {
                        snap: SnapshotView {
                            steps: ss.push(StepView::Observation(log_assert_obs(log.len()))),
                            quads: log,
                            ..s
                        },
                        facts: st.facts.push(input),
                    }
                } else if tool == "kqe.query"@ {
                    PregelView {
                        snap: snap_steps(s, ss.push(StepView::Observation(log_query_obs(s.quads)))),
                        ..st
                    }
                } else if tool == "kse.publish"@ {
                    PregelView {
                        snap: snap_steps(s, ss.push(StepView::Observation(publish_obs(input)))),
                        ..st
                    }
                } else {
                    PregelView {
                        snap: snap_steps(s, ss.push(StepView::Observation(unknown_obs(tool)))),
                        ..st
                    }
                }
            },
        }
    }
}

/// Whether the vertex votes to halt after the superstep.
pub open spec fn superstep_halts(st: PregelView, reply: ReplyView) -> bool {
    at_limit(st) || cycle_done(reply)
}

/// The vertex state after supersteps on `replies`, in order.
pub open spec fn supersteps_state(st: PregelView, replies: Seq<ReplyView>) -> PregelView
    decreases replies.len(),
{
    if replies.len() == 0 {
        st
    } else {
        superstep_state(supersteps_state(st, replies.drop_last()), replies.last())
    }
}

proof fn lemma_supersteps_keep_task(st: PregelView, replies: Seq<ReplyView>)
    ensures
        supersteps_state(st, replies).snap.task == st.snap.task,
        supersteps_state(st, replies).snap.max_steps == st.snap.max_steps,
    decreases replies.len(),
{
    if replies.len() > 0 {
        lemma_supersteps_keep_task(st, replies.drop_last());
    }
}

/// Every superstep of a Pregel run of `s` on `replies` that asked the engine
/// got its reply as the engine's answer to that superstep's prompt.
#[verifier::opaque]
pub open spec fn pregel_answered<E: InferenceEngine>(
    e: E,
    budget: usize,
    s: SessionView,
    replies: Seq<ReplyView>,
) -> bool {
    forall|j: int|
        0 <= j < replies.len() && !at_limit(supersteps_state(pregel_start(s), replies.take(j)))
            ==> e.answers(pregel_prompt(s, replies, j), budget, #[trigger] replies[j])
}

proof fn lemma_pregel_answers_extend<E: InferenceEngine>(
    e: E,
    budget: usize,
    s: SessionView,
    prev: Seq<ReplyView>,
    rv: ReplyView,
)
    requires
        pregel_answered(e, budget, s, prev),
        !at_limit(supersteps_state(pregel_start(s), prev)) ==> e.answers(
            prompt_of(s.task, supersteps_state(pregel_start(s), prev).snap.steps),
            budget,
            rv,
        ),
    ensures
        pregel_answered(e, budget, s, prev.push(rv)),
{
    reveal(pregel_answered);
    let r = prev.push(rv);
    assert forall|j: int|
        0 <= j < prev.len() + 1 && !at_limit(supersteps_state(pregel_start(s), r.take(j)))
            implies e.answers(pregel_prompt(s, r, j), budget, #[trigger] r[j]) by {
        assert(r.take(j) =~= prev.take(j));
        if j < prev.len() {
            assert(r[j] == prev[j]);
        } else {
            assert(r.take(j) =~= prev);
        }
    }
}

/// The prompt of superstep `i` of a Pregel run: the task and the steps after
/// the supersteps on the first `i` replies.
pub open spec fn pregel_prompt(s: SessionView, replies: Seq<ReplyView>, i: int) -> Seq<char> {
    prompt_of(s.task, supersteps_state(pregel_start(s), replies.take(i)).snap.steps)
}

/// The arrangement rebuilt from asserted inputs: each input's fact in graph `g`.
pub open spec fn rebuilt(g: Seq<u8>, facts: Seq<Seq<char>>) -> Seq<DatomView>
    decreases facts.len(),
{
    if facts.len() == 0 {
        Seq::empty()
    } else {
        insert_view(rebuilt(g, facts.drop_last()), datom_of_quad(fact_quad(g, facts.last())))
    }
}

/// The vertex state a run of session `s` starts from.
pub open spec fn pregel_start(s: SessionView) -> PregelView {
    PregelView {
        snap: SnapshotView { task: s.task, steps: s.steps, quads: Seq::empty(), max_steps: s.max_steps },
        facts: Seq::empty(),
    }
}

/// The session a run of `s` ends in from vertex state `st`: its steps, and an
/// arrangement holding exactly the asserted facts.
pub open spec fn pregel_session(s: SessionView, st: PregelView) -> SessionView {
    SessionView { steps: st.snap.steps, arrangement: rebuilt(s.graph_cid, st.facts), ..s }
}

/// Outcome of one superstep.
#[derive(Debug, Clone, Copy)]
pub struct SuperstepResult {
    /// Index of the superstep, from 0.
    pub superstep: u32,
    /// Messages sent for the next superstep.
    pub messages_sent: usize,
    /// Whether every vertex voted to halt.
    pub all_halted: bool,
}

/// `out` and `res` are how a Pregel run of `s` ends when inference answers
/// `replies` (one per superstep; a superstep at the limit asks nothing):
/// supersteps continue, each self-messaging once, until the vertex halts or
/// `max_steps + 1` supersteps have run.
pub open spec fn pregel_run(
    s: SessionView,
    replies: Seq<ReplyView>,
    out: SessionView,
    res: Seq<SuperstepResult>,
) -> bool {
    let st0 = pregel_start(s);
    &&& 1 <= replies.len() <= s.max_steps + 1
    &&& res.len() == replies.len()
    &&& forall|k: int| 0 <= k < res.len() ==> {
        &&& (#[trigger] res[k]).superstep == k
        &&& res[k].all_halted == superstep_halts(supersteps_state(st0, replies.take(k)), replies[k])
        &&& res[k].messages_sent == if res[k].all_halted { 0usize } else { 1usize }
    }
    &&& forall|k: int| 0 <= k < res.len() - 1 ==> !(#[trigger] res[k]).all_halted
    &&& res.last().all_halted || replies.len() == s.max_steps + 1
    &&& out == pregel_session(s, supersteps_state(st0, replies))
}

/// Whether inference answered (did not fail) every superstep of a Pregel
/// run of `s` that asked it.
pub open spec fn pregel_answers_ok(s: SessionView, replies: Seq<ReplyView>) -> bool {
    forall|k: int|
        0 <= k < replies.len() && !at_limit(supersteps_state(pregel_start(s), replies.take(k)))
            ==> (#[trigger] replies[k]) is Ok
}

proof fn lemma_thoughts_push(steps: Seq<StepView>, x: StepView)
    ensures
        thoughts(steps.push(x)) == thoughts(steps) + if x is Thought {
            1nat
        } else {
            0nat
        },
{
    assert(steps.push(x).drop_last() =~= steps);
}

proof fn lemma_u32_in_range(v: nat)
    requires
        v < 0x1_0000_0000,
    ensures
        (v as u32) as int == v,
{
}

proof fn lemma_supersteps_unfold(st: PregelView, replies: Seq<ReplyView>, j: int)
    requires
        0 <= j < replies.len(),
    ensures
        supersteps_state(st, replies.take(j + 1)) == superstep_state(supersteps_state(st, replies.take(j)), replies[j]),
{
    assert(replies.take(j + 1).drop_last() =~= replies.take(j));
    assert(replies.take(j + 1).last() == replies[j]);
}

/// A superstep on an answered reply that neither reaches the limit nor
/// finishes adds exactly one thought.
proof fn lemma_superstep_adds_thought(st: PregelView, reply: ReplyView)
    requires
        !at_limit(st),
        !cycle_done(reply),
        reply is Ok,
    ensures
        thoughts(superstep_state(st, reply).snap.steps) == thoughts(st.snap.steps) + 1,
{
    let t = reply->Ok_0;
    let th = trim(t);
    let tool = action_of(th).0;
    let input = action_of(th).1;
    let ss = st.snap.steps.push(StepView::Thought(th)).push(StepView::Action(tool, input));
    lemma_thoughts_push(st.snap.steps, StepView::Thought(th));
    lemma_thoughts_push(st.snap.steps.push(StepView::Thought(th)), StepView::Action(tool, input));
    let next = superstep_state(st, reply);
    assert(tool != "finish"@);
    let last = next.snap.steps.last();
    assert(next.snap.steps == ss.push(last));
    assert(last is Observation);
    lemma_thoughts_push(ss, last);
}

/// While a Pregel run goes on, each superstep adds exactly one thought.
proof fn lemma_pregel_thoughts(s: SessionView, replies: Seq<ReplyView>, res: Seq<SuperstepResult>, out: SessionView, j: int)
    requires
        pregel_run(s, replies, out, res),
        pregel_answers_ok(s, replies),
        0 <= j < replies.len(),
    ensures
        thoughts(supersteps_state(pregel_start(s), replies.take(j)).snap.steps) == thoughts(s.steps) + j,
    decreases j,
{
    let st0 = pregel_start(s);
    if j == 0 {
        assert(replies.take(0) =~= Seq::<ReplyView>::empty());
    } else {
        lemma_pregel_thoughts(s, replies, res, out, j - 1);
        lemma_supersteps_unfold(st0, replies, j - 1);
        let st = supersteps_state(st0, replies.take(j - 1));
        assert(!res[j - 1].all_halted);
        assert(!at_limit(st) && !cycle_done(replies[j - 1]));
        assert(replies[j - 1] is Ok);
        lemma_superstep_adds_thought(st, replies[j - 1]);
    }
}

/// A superstep adds at most one thought, and none when the vertex is at its
/// limit.
proof fn lemma_superstep_thoughts(st: PregelView, reply: ReplyView)
    ensures
        thoughts(superstep_state(st, reply).snap.steps) <= thoughts(st.snap.steps) + 1,
        at_limit(st) ==> thoughts(superstep_state(st, reply).snap.steps) == thoughts(st.snap.steps),
{
    let next = superstep_state(st, reply).snap.steps;
    if at_limit(st) || reply is Err {
        lemma_thoughts_push(st.snap.steps, next.last());
        assert(next == st.snap.steps.push(next.last()));
    } else {
        let th = trim(reply->Ok_0);
        let tool = action_of(th).0;
        let input = action_of(th).1;
        let ss = st.snap.steps.push(StepView::Thought(th)).push(StepView::Action(tool, input));
        lemma_thoughts_push(st.snap.steps, StepView::Thought(th));
        lemma_thoughts_push(st.snap.steps.push(StepView::Thought(th)), StepView::Action(tool, input));
        assert(next == ss.push(next.last()));
        lemma_thoughts_push(ss, next.last());
    }
}

/// The larger of two numbers.
pub open spec fn max_nat(a: nat, b: nat) -> nat {
    if a < b {
        b
    } else {
        a
    }
}

proof fn lemma_supersteps_thought_bound(st0: PregelView, replies: Seq<ReplyView>)
    requires
        thoughts(st0.snap.steps) < 0x1_0000_0000,
    ensures
        thoughts(supersteps_state(st0, replies).snap.steps) <= max_nat(
            thoughts(st0.snap.steps),
            st0.snap.max_steps as nat,
        ),
    decreases replies.len(),
{
    if replies.len() > 0 {
        let prev = replies.drop_last();
        lemma_supersteps_thought_bound(st0, prev);
        lemma_supersteps_keep_task(st0, prev);
        let st = supersteps_state(st0, prev);
        lemma_superstep_thoughts(st, replies.last());
        if !at_limit(st) {
            lemma_u32_in_range(thoughts(st.snap.steps));
        }
    }
}

/// A Pregel run adds thoughts only while the vertex is under its step limit:
/// it ends with at most `max_steps` thoughts, or as many as the session
/// started with when that is more. (Sessions whose thought count does not
/// fit in a `u32`, on which the limit is checked on a truncated count, are
/// left out.)
pub proof fn lemma_pregel_thought_bound(
    s: SessionView,
    replies: Seq<ReplyView>,
    out: SessionView,
    res: Seq<SuperstepResult>,
)
    requires
        pregel_run(s, replies, out, res),
        thoughts(s.steps) < 0x1_0000_0000,
    ensures
        thoughts(out.steps) <= max_nat(thoughts(s.steps), s.max_steps as nat),
{
    lemma_supersteps_thought_bound(pregel_start(s), replies);
}

/// A Pregel run in which inference never fails ends with an answer, and its
/// last superstep has every vertex halted. (When the thought count could
/// pass `u32::MAX`, the step limit is checked on a truncated count; such
/// sessions are left out.)
pub proof fn lemma_pregel_run_finishes(
    s: SessionView,
    replies: Seq<ReplyView>,
    out: SessionView,
    res: Seq<SuperstepResult>,
)
    requires
        pregel_run(s, replies, out, res),
        pregel_answers_ok(s, replies),
        thoughts(s.steps) + s.max_steps < 0x1_0000_0000,
    ensures
        res.last().all_halted,
        out.steps.len() > 0,
        out.steps.last() is Finish,
{
    let st0 = pregel_start(s);
    let n = replies.len() as int;
    let st = supersteps_state(st0, replies.take(n - 1));
    lemma_pregel_thoughts(s, replies, res, out, n - 1);
    if !res[n - 1].all_halted {
        assert(n == s.max_steps + 1);
        lemma_supersteps_keep_task(st0, replies.take(n - 1));
        lemma_u32_in_range(thoughts(st.snap.steps));
        assert(at_limit(st));
    }
    assert(replies.take(n) =~= replies);
    lemma_supersteps_unfold(st0, replies, n - 1);
    assert(supersteps_state(st0, replies) == superstep_state(st, replies[n - 1]));
}

/// The ReAct loop as a Pregel computation on one vertex.
pub struct PregelReActRunner<E: InferenceEngine> {
    inference_engine: E,
    max_tokens: usize,
}

/// The models of asserted inputs.
pub open spec fn facts_view(f: Seq<String>) -> Seq<Seq<char>> {
    f.map_values(|x: String| x@)
}

impl<E: InferenceEngine> PregelReActRunner<E> {
    /// The token budget of each inference.
    pub closed spec fn token_budget(&self) -> usize {
        self.max_tokens
    }

    /// The engine the runner thinks with.
    pub closed spec fn engine(&self) -> E {
        self.inference_engine
    }

    /// A runner thinking with `inference_engine`, `max_tokens` per thought.
    pub fn new(inference_engine: E, max_tokens: usize) -> (r: PregelReActRunner<E>)
        ensures
            r.token_budget() == max_tokens,
            r.engine() == inference_engine,
    {
        PregelReActRunner { inference_engine, max_tokens }
    }

    /// One superstep on the vertex state.
    fn superstep(&self, snap: &mut AgentSnapshot, facts: &mut Vec<String>) -> (r: (bool, Ghost<ReplyView>))
        ensures
            (PregelView { snap: final(snap)@, facts: facts_view(final(facts)@) }) == superstep_state(
                PregelView { snap: old(snap)@, facts: facts_view(old(facts)@) },
                r.1@,
            ),
            r.0 == superstep_halts(PregelView { snap: old(snap)@, facts: facts_view(old(facts)@) }, r.1@),
            r.0 ==> final(snap)@.steps.len() > 0 && final(snap)@.steps.last() is Finish,
            !at_limit(PregelView { snap: old(snap)@, facts: facts_view(old(facts)@) })
                ==> self.engine().answers(
                prompt_of(old(snap)@.task, old(snap)@.steps),
                self.token_budget(),
                r.1@,
            ),
    {
        let ghost st = PregelView { snap: snap@, facts: facts_view(facts@) };
        let cycles = count_thoughts(&snap.steps);
        #[verifier::truncate]
        let cycles32 = cycles as u32;
        if cycles32 >= snap.max_steps {
            let mut out: Vec<char> = Vec::new();
            push_str_chars(&mut out, "pregel max_steps=");
            push_decimal(&mut out, snap.max_steps as u64);
            push_str_chars(&mut out, " reached");
            let answer = string_from_chars(&out);
            snap.steps.push(ReActStep::Finish { answer });
            proof {
                assert(answer@ =~= pregel_limit_answer(st.snap.max_steps));
                assert(snap@.steps =~= st.snap.steps.push(StepView::Finish(pregel_limit_answer(st.snap.max_steps))));
            }
            return (true, Ghost(Err(Seq::empty())));
        }
        let prompt = build_prompt(snap.task.as_str(), &snap.steps);
        let reply = self.inference_engine.infer(prompt.as_str(), self.max_tokens);
        let ghost rv = reply_view(reply);
        match reply {
            Err(e) => {
                let obs = prefixed("inference error: ", e.as_str());
                snap.steps.push(ReActStep::Observation { output: obs });
                assert(snap@.steps =~= st.snap.steps.push(StepView::Observation(error_obs(e@))));
                (false, Ghost(rv))
            },
            Ok(t) => {
                let tc = chars_of(t.as_str());
                let th = trim_chars(&tc);
                let thought = string_from_chars(&th);
                let (tool, input) = parse_action(thought.as_str());
                let tool_cs = chars_of(tool.as_str());
                snap.steps.push(ReActStep::Thought { text: thought });
                let is_finish = str_eq(&tool_cs, "finish");
                let is_assert = str_eq(&tool_cs, "kqe.assert");
                let is_query = str_eq(&tool_cs, "kqe.query");
                let is_publish = str_eq(&tool_cs, "kse.publish");
                let ghost tv = tool@;
                let ghost iv = input@;
                let tool_for_obs = tool.clone();
                snap.steps.push(ReActStep::Action { tool, input: input.clone() });
                let ghost ss = snap@.steps;
                assert(ss =~= st.snap.steps.push(StepView::Thought(trim(t@))).push(StepView::Action(tv, iv)));
                if is_finish {
                    snap.steps.push(ReActStep::Finish { answer: input });
                    assert(snap@.steps =~= ss.push(StepView::Finish(iv)));
                    (true, Ghost(rv))
                } else if is_assert {
                    let obs = snap.assert_quad(input.as_str());
                    snap.steps.push(ReActStep::Observation { output: obs });
                    facts.push(input);
                    assert(snap@.steps =~= ss.push(StepView::Observation(log_assert_obs(snap@.quads.len()))));
                    assert(facts_view(facts@) =~= st.facts.push(iv));
                    (false, Ghost(rv))
                } else if is_query {
                    let obs = snap.query_quads();
                    snap.steps.push(ReActStep::Observation { output: obs });
                    assert(snap@.steps =~= ss.push(StepView::Observation(log_query_obs(st.snap.quads))));
                    (false, Ghost(rv))
                } else if is_publish {
                    let obs = publish_observation(input.as_str());
                    snap.steps.push(ReActStep::Observation { output: obs });
                    assert(snap@.steps =~= ss.push(StepView::Observation(publish_obs(iv))));
                    (false, Ghost(rv))
                } else {
                    let obs = prefixed("unknown tool: ", tool_for_obs.as_str());
                    snap.steps.push(ReActStep::Observation { output: obs });
                    assert(snap@.steps =~= ss.push(StepView::Observation(unknown_obs(tv))));
                    (false, Ghost(rv))
                }
            },
        }
    }

    /// Runs the agent as a one-vertex Pregel computation: a seed message
    /// starts superstep 0, each superstep runs one cycle and messages the
    /// vertex itself unless it halts; at most `max_steps + 1` supersteps run.
    /// Returns the final session (its arrangement rebuilt from the quad log)
    /// and one result per superstep.
    pub fn run(&self, session: AgentSession) -> (r: (AgentSession, Vec<SuperstepResult>))
        ensures
            exists|replies: Seq<ReplyView>|
                #[trigger] pregel_run(session@, replies, r.0@, r.1@) && pregel_answered(
                    self.engine(),
                    self.token_budget(),
                    session@,
                    replies,
                ),
            r.1@.len() >= 1,
            r.1@.last().all_halted ==> r.0@.steps.len() > 0 && r.0@.steps.last() is Finish,
    {
        let ghost s0 = session@;
        let ghost st0 = pregel_start(s0);
        let mut snap = AgentSnapshot::from_session(&session);
        let mut facts: Vec<String> = Vec::new();
        assert(facts_view(facts@) =~= Seq::<Seq<char>>::empty());
        assert(snap@.quads =~= st0.snap.quads);
        let mut results: Vec<SuperstepResult> = Vec::new();
        let ghost mut replies: Seq<ReplyView> = Seq::empty();
        assert(pregel_answered(self.engine(), self.token_budget(), s0, replies)) by {
            reveal(pregel_answered);
        }
        let limit: u64 = session.max_steps as u64 + 1;
        let mut k: u64 = 0;
        let mut halted = false;
        assert(replies =~= replies.take(0));
        while k < limit && !halted
            invariant
                s0 == session@,
                st0 == pregel_start(s0),
                limit == s0.max_steps + 1,
                k <= limit,
                k == replies.len(),
                results@.len() == k,
                (PregelView { snap: snap@, facts: facts_view(facts@) }) == supersteps_state(st0, replies),
                forall|j: int| 0 <= j < k ==> {
                    &&& (#[trigger] results@[j]).superstep == j
                    &&& results@[j].all_halted == superstep_halts(
                        supersteps_state(st0, replies.take(j)),
                        replies[j],
                    )
                    &&& results@[j].messages_sent == if results@[j].all_halted {
                        0usize
                    } else {
                        1usize
                    }
                },
                forall|j: int| 0 <= j < k - 1 ==> !(#[trigger] results@[j]).all_halted,
                k > 0 ==> results@[k - 1].all_halted == halted,
                k == 0 ==> !halted,
                halted ==> snap@.steps.len() > 0 && snap@.steps.last() is Finish,
                pregel_answered(self.engine(), self.token_budget(), s0, replies),
            decreases limit - k,
        {
            let ghost prev = replies;
            let ghost prev_results = results@;
            proof {
                lemma_supersteps_keep_task(st0, replies);
            }
            let (h, Ghost(rv)) = self.superstep(&mut snap, &mut facts);
            let sent: usize = if h { 0 } else { 1 };
            results.push(SuperstepResult { superstep: k as u32, messages_sent: sent, all_halted: h });
            proof {
                replies = prev.push(rv);
                assert(replies.drop_last() =~= prev);
                assert(replies.take(k as int) =~= prev);
                assert forall|j: int| 0 <= j < k + 1 implies {
                    &&& (#[trigger] results@[j]).superstep == j
                    &&& results@[j].all_halted == superstep_halts(
                        supersteps_state(st0, replies.take(j)),
                        replies[j],
                    )
                    &&& results@[j].messages_sent == if results@[j].all_halted {
                        0usize
                    } else {
                        1usize
                    }
                } by {
                    if j < k {
                        assert(results@[j] == prev_results[j]);
                        assert(replies.take(j) =~= prev.take(j));
                        assert(replies[j] == prev[j]);
                    }
                }
                assert forall|j: int| 0 <= j < k + 1 - 1 implies !(#[trigger] results@[j]).all_halted by {
                    if j < k {
                        assert(results@[j] == prev_results[j]);
                    }
                }
                lemma_pregel_answers_extend(self.engine(), self.token_budget(), s0, prev, rv);
            }
            halted = h;
            k += 1;
        }
        let mut arr = Arrangement::new();
        let ghost fv = facts_view(facts@);
        for i in 0..facts.len()
            invariant
                fv == facts_view(facts@),
                arr@ == rebuilt(session.graph_cid.0@, fv.take(i as int)),
        {
            let q = fact_of(&session.graph_cid, facts[i].as_str());
            arr.insert(&q);
            assert(fv.take(i + 1).drop_last() =~= fv.take(i as int));
        }
        assert(fv.take(facts@.len() as int) =~= fv);
        let out = AgentSession {
            session_cid: session.session_cid,
            graph_cid: session.graph_cid,
            task: session.task,
            steps: snap.steps,
            arrangement: arr,
            max_steps: session.max_steps,
        };
        proof {
            assert(out@ == pregel_session(s0, supersteps_state(st0, replies)));
            assert(pregel_run(s0, replies, out@, results@));
        }
        let r = (out, results);
        assert(pregel_run(session@, replies, r.0@, r.1@));
        r
    }
}

} // verus!
