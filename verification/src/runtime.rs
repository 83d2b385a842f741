//! Host side of program execution: errors, per-invocation host state with gas
//! accounting, the host calls that guest programs make, and the assembly of an
//! invocation's result from what the guest returned.
use vstd::prelude::*;
use crate::text::decimal;
use crate::text::decimal_string;

verus! {

/// Why an invocation failed.
#[derive(Debug)]
pub enum RuntimeError {
    ProgramNotFound(String),
    CompileFailed(String),
    InstantiateFailed(String),
    Trap(String),
    GuestError(String),
    ContextDecode(String),
    HostCall(String),
    GasExceeded { limit: u64 },
}

fn prefixed(prefix: &str, rest: &str) -> (s: String)
    ensures
        s@ == prefix@ + rest@,
{
    let mut s = String::from_str(prefix);
    s.append(rest);
    s
}

/// The text of a runtime error.
pub open spec fn runtime_error_text(e: RuntimeError) -> Seq<char> {
    match e {
        RuntimeError::ProgramNotFound(x) => "program not found: "@ + x@,
        RuntimeError::CompileFailed(x) => "compile failed: "@ + x@,
        RuntimeError::InstantiateFailed(x) => "instantiate failed: "@ + x@,
        RuntimeError::Trap(x) => "execution trapped: "@ + x@,
        RuntimeError::GuestError(x) => "guest returned error: "@ + x@,
        RuntimeError::ContextDecode(x) => "context decode failed: "@ + x@,
        RuntimeError::HostCall(x) => "host call failed: "@ + x@,
        RuntimeError::GasExceeded { limit } => "gas limit exceeded (limit="@ + decimal(limit as nat) + ")"@,
    }
}

impl RuntimeError {
    /// Human-readable description.
    pub fn message(&self) -> (s: String)
        ensures
            s@ == runtime_error_text(*self),
    {
        match self {
            RuntimeError::ProgramNotFound(x) => prefixed("program not found: ", x.as_str()),
            RuntimeError::CompileFailed(x) => prefixed("compile failed: ", x.as_str()),
            RuntimeError::InstantiateFailed(x) => prefixed("instantiate failed: ", x.as_str()),
            RuntimeError::Trap(x) => prefixed("execution trapped: ", x.as_str()),
            RuntimeError::GuestError(x) => prefixed("guest returned error: ", x.as_str()),
            RuntimeError::ContextDecode(x) => prefixed("context decode failed: ", x.as_str()),
            RuntimeError::HostCall(x) => prefixed("host call failed: ", x.as_str()),
            RuntimeError::GasExceeded { limit } => {
                let n = decimal_string(*limit);
                let mut s = prefixed("gas limit exceeded (limit=", n.as_str());
                s.append(")");
                s
            },
        }
    }
}

/// A quad asserted or retracted by a guest, as the guest handed it over.
#[derive(Debug)]
pub struct PendingQuad {
    pub graph: String,
    pub subject: String,
    pub predicate: String,
    pub object_cbor: Vec<u8>,
}

/// Gas cost of asserting a quad.
pub const GAS_ASSERT_QUAD: u64 = 10;
/// Gas cost of retracting a quad.
pub const GAS_RETRACT_QUAD: u64 = 10;
/// Gas cost of a Datalog query.
pub const GAS_QUERY: u64 = 100;
/// Gas cost of reading objects.
pub const GAS_GET_OBJECTS: u64 = 5;
/// Gas cost of reading a graph head.
pub const GAS_GET_HEAD: u64 = 1;
/// Gas cost of publishing to a journal topic.
pub const GAS_PUBLISH: u64 = 20;
/// Gas cost of draining a journal topic.
pub const GAS_DRAIN: u64 = 20;
/// Gas cost of verifying a CACAO.
pub const GAS_VERIFY_CACAO: u64 = 50;
/// Gas cost of a capability check.
pub const GAS_HAS_CAPABILITY: u64 = 10;
/// Gas cost of an inference request (each token is a superstep).
pub const GAS_INFER: u64 = 1000;
/// Gas cost of an embedding request.
pub const GAS_EMBED: u64 = 200;
/// Gas cost of loading an adapter.
pub const GAS_LOAD_LORA: u64 = 500;
/// Gas cost of appending an inference entry.
pub const GAS_APPEND_INFER: u64 = 30;
/// Gas cost of reading the chain head.
pub const GAS_HEAD_CID: u64 = 1;

/// Host-side state of one invocation.
pub struct HostState {
    /// DID of the agent executing the invocation.
    pub agent_did: String,
    /// Gas left.
    pub gas_remaining: u64,
    /// Quads the guest asserted.
    pub pending_asserts: Vec<PendingQuad>,
    /// Quads the guest retracted.
    pub pending_retracts: Vec<PendingQuad>,
}

/// The failure a host call reports when gas runs out.
pub open spec fn gas_exhausted() -> Seq<char> {
    "gas exhausted"@
}

/// The failure an unwired model bridge reports.
pub open spec fn bridge_not_wired() -> Seq<char> {
    "foreign bridge not yet wired"@
}

/// A host call of cost `cost` went from `before` to `after`: with enough gas
/// it succeeded (`ok`) and took `cost`; otherwise it failed with
/// "gas exhausted" and took nothing. Pending quads and the DID never change.
pub open spec fn charged(before: HostState, after: HostState, cost: u64, ok: bool) -> bool {
    &&& before.gas_remaining >= cost ==> ok && after.gas_remaining == before.gas_remaining - cost
    &&& before.gas_remaining < cost ==> !ok && after.gas_remaining == before.gas_remaining
    &&& after.agent_did == before.agent_did
    &&& after.pending_asserts == before.pending_asserts
    &&& after.pending_retracts == before.pending_retracts
}

impl HostState {
    /// Fresh state with the whole gas limit and no pending quads.
    pub fn new(agent_did: &str, gas_limit: u64) -> (s: HostState)
        ensures
            s.agent_did@ == agent_did@,
            s.gas_remaining == gas_limit,
            s.pending_asserts@.len() == 0,
            s.pending_retracts@.len() == 0,
    {
        HostState {
            agent_did: agent_did.to_owned(),
            gas_remaining: gas_limit,
            pending_asserts: Vec::new(),
            pending_retracts: Vec::new(),
        }
    }

    /// Takes `cost` gas; fails, leaving the state unchanged, when less is left.
    pub fn charge_gas(&mut self, cost: u64) -> (r: Result<(), String>)
        ensures
            old(self).gas_remaining >= cost ==> (r is Ok && final(self).gas_remaining
                == old(self).gas_remaining - cost),
            old(self).gas_remaining < cost ==> (r matches Err(e) && e@ == gas_exhausted()
                && final(self).gas_remaining == old(self).gas_remaining),
            final(self).agent_did == old(self).agent_did,
            final(self).pending_asserts == old(self).pending_asserts,
            final(self).pending_retracts == old(self).pending_retracts,
    {
        if self.gas_remaining < cost {
            return Err(String::from_str("gas exhausted"));
        }
        self.gas_remaining = self.gas_remaining - cost;
        Ok(())
    }

    /// `kqe.assert-quad`: charges its gas, then records the quad.
    pub fn assert_quad(&mut self, quad: PendingQuad) -> (r: Result<(), String>)
        ensures
            old(self).gas_remaining >= GAS_ASSERT_QUAD ==> (r is Ok && final(self).gas_remaining
                == old(self).gas_remaining - GAS_ASSERT_QUAD && final(self).pending_asserts@
                == old(self).pending_asserts@.push(quad)),
            old(self).gas_remaining < GAS_ASSERT_QUAD ==> (r matches Err(e) && e@ == gas_exhausted()
                && final(self).gas_remaining == old(self).gas_remaining && final(self).pending_asserts
                == old(self).pending_asserts),
            final(self).pending_retracts == old(self).pending_retracts,
            final(self).agent_did == old(self).agent_did,
    {
        self.charge_gas(GAS_ASSERT_QUAD)?;
        self.pending_asserts.push(quad);
        Ok(())
    }

    /// `kqe.retract-quad`: charges its gas, then records the quad.
    pub fn retract_quad(&mut self, quad: PendingQuad) -> (r: Result<(), String>)
        ensures
            old(self).gas_remaining >= GAS_RETRACT_QUAD ==> (r is Ok && final(self).gas_remaining
                == old(self).gas_remaining - GAS_RETRACT_QUAD && final(self).pending_retracts@
                == old(self).pending_retracts@.push(quad)),
            old(self).gas_remaining < GAS_RETRACT_QUAD ==> (r matches Err(e) && e@ == gas_exhausted()
                && final(self).gas_remaining == old(self).gas_remaining && final(self).pending_retracts
                == old(self).pending_retracts),
            final(self).pending_asserts == old(self).pending_asserts,
            final(self).agent_did == old(self).agent_did,
    {
        self.charge_gas(GAS_RETRACT_QUAD)?;
        self.pending_retracts.push(quad);
        Ok(())
    }

    /// `kqe.query`: charges its gas; no rows are served yet.
    pub fn query(&mut self, datalog_src: &str) -> (r: Result<Result<Vec<Vec<u8>>, String>, String>)
        ensures
            charged(*old(self), *final(self), GAS_QUERY, r is Ok),
            r matches Err(e) ==> e@ == gas_exhausted(),
            r matches Ok(inner) ==> (inner matches Ok(rows) && rows@.len() == 0),
    {
        self.charge_gas(GAS_QUERY)?;
        Ok(Ok(Vec::new()))
    }

    /// `kqe.get-objects`: charges its gas; no objects are served yet.
    pub fn get_objects(&mut self, graph: &str, subject: &str, predicate: &str) -> (r: Result<
        Vec<Vec<u8>>,
        String,
    >)
        ensures
            charged(*old(self), *final(self), GAS_GET_OBJECTS, r is Ok),
            r matches Err(e) ==> e@ == gas_exhausted(),
            r matches Ok(objs) ==> objs@.len() == 0,
    {
        self.charge_gas(GAS_GET_OBJECTS)?;
        Ok(Vec::new())
    }

    /// `kqe.get-head`: charges its gas; no head is known yet.
    pub fn get_head(&mut self, graph_name: &str) -> (r: Result<Option<String>, String>)
        ensures
            charged(*old(self), *final(self), GAS_GET_HEAD, r is Ok),
            r matches Err(e) ==> e@ == gas_exhausted(),
            r matches Ok(h) ==> h is None,
    {
        self.charge_gas(GAS_GET_HEAD)?;
        Ok(None)
    }

    /// `kse.publish`: charges its gas and answers a placeholder identifier.
    pub fn publish(&mut self, topic: &str, payload: &[u8]) -> (r: Result<Result<String, String>, String>)
        ensures
            charged(*old(self), *final(self), GAS_PUBLISH, r is Ok),
            r matches Err(e) ==> e@ == gas_exhausted(),
            r matches Ok(inner) ==> (inner matches Ok(c) && c@ == "bplaceholder_cid"@),
    {
        self.charge_gas(GAS_PUBLISH)?;
        Ok(Ok(String::from_str("bplaceholder_cid")))
    }

    /// `kse.drain`: charges its gas; nothing is queued yet.
    pub fn drain(&mut self, topic_pattern: &str, max_items: u32) -> (r: Result<
        Result<Vec<(String, Vec<u8>)>, String>,
        String,
    >)
        ensures
            charged(*old(self), *final(self), GAS_DRAIN, r is Ok),
            r matches Err(e) ==> e@ == gas_exhausted(),
            r matches Ok(inner) ==> (inner matches Ok(items) && items@.len() == 0),
    {
        self.charge_gas(GAS_DRAIN)?;
        Ok(Ok(Vec::new()))
    }

    /// `auth.verify-cacao`: charges its gas; verification is not offered to guests.
    pub fn verify_cacao(&mut self, cacao_cbor: &[u8]) -> (r: Result<Result<String, String>, String>)
        ensures
            charged(*old(self), *final(self), GAS_VERIFY_CACAO, r is Ok),
            r matches Err(e) ==> e@ == gas_exhausted(),
            r matches Ok(inner) ==> (inner matches Err(e) && e@ == "not implemented"@),
    {
        self.charge_gas(GAS_VERIFY_CACAO)?;
        Ok(Err(String::from_str("not implemented")))
    }

    /// `auth.has-capability`: charges its gas; no capability is granted yet.
    pub fn has_capability(&mut self, resource_uri: &str, ability: &str) -> (r: Result<bool, String>)
        ensures
            charged(*old(self), *final(self), GAS_HAS_CAPABILITY, r is Ok),
            r matches Err(e) ==> e@ == gas_exhausted(),
            r matches Ok(b) ==> !b,
    {
        self.charge_gas(GAS_HAS_CAPABILITY)?;
        Ok(false)
    }

    /// `llm.infer`: charges its gas; the foreign bridge is not wired.
    pub fn infer(&mut self, model_cid: &str, prompt_bytes: &[u8]) -> (r: Result<Result<Vec<u8>, String>, String>)
        ensures
            charged(*old(self), *final(self), GAS_INFER, r is Ok),
            r matches Err(e) ==> e@ == gas_exhausted(),
            r matches Ok(inner) ==> (inner matches Err(e) && e@ == bridge_not_wired()),
    {
        self.charge_gas(GAS_INFER)?;
        Ok(Err(String::from_str("foreign bridge not yet wired")))
    }

    /// `llm.embed`: charges its gas; the foreign bridge is not wired.
    pub fn embed(&mut self, model_cid: &str, text: &str) -> (r: Result<Result<Vec<u8>, String>, String>)
        ensures
            charged(*old(self), *final(self), GAS_EMBED, r is Ok),
            r matches Err(e) ==> e@ == gas_exhausted(),
            r matches Ok(inner) ==> (inner matches Err(e) && e@ == bridge_not_wired()),
    {
        self.charge_gas(GAS_EMBED)?;
        Ok(Err(String::from_str("foreign bridge not yet wired")))
    }

    /// `llm.load-lora`: charges its gas; the foreign bridge is not wired.
    pub fn load_lora(&mut self, base_model_cid: &str, lora_cid: &str) -> (r: Result<Result<(), String>, String>)
        ensures
            charged(*old(self), *final(self), GAS_LOAD_LORA, r is Ok),
            r matches Err(e) ==> e@ == gas_exhausted(),
            r matches Ok(inner) ==> (inner matches Err(e) && e@ == bridge_not_wired()),
    {
        self.charge_gas(GAS_LOAD_LORA)?;
        Ok(Err(String::from_str("foreign bridge not yet wired")))
    }

    /// `chain.append-infer`: charges its gas; appending is not wired.
    pub fn append_infer(&mut self, model_cid: &str, prompt_cid: &str, output_cid: &str) -> (r: Result<
        Result<String, String>,
        String,
    >)
        ensures
            charged(*old(self), *final(self), GAS_APPEND_INFER, r is Ok),
            r matches Err(e) ==> e@ == gas_exhausted(),
            r matches Ok(inner) ==> (inner matches Err(e) && e@ == "chain append not yet wired"@),
    {
        self.charge_gas(GAS_APPEND_INFER)?;
        Ok(Err(String::from_str("chain append not yet wired")))
    }

    /// `chain.head-cid`: charges its gas; no head is known yet.
    pub fn head_cid(&mut self) -> (r: Result<Option<String>, String>)
        ensures
            charged(*old(self), *final(self), GAS_HEAD_CID, r is Ok),
            r matches Err(e) ==> e@ == gas_exhausted(),
            r matches Ok(h) ==> h is None,
    {
        self.charge_gas(GAS_HEAD_CID)?;
        Ok(None)
    }

    /// `auth.current-did`: the agent's DID (free of charge).
    pub fn current_did(&self) -> (d: String)
        ensures
            d@ == self.agent_did@,
    {
        self.agent_did.clone()
    }
}

/// Result of an invocation, written back as the result chain entry.
#[derive(Debug)]
pub struct InvokeResult {
    pub output_cbor: Vec<u8>,
    pub gas_used: u64,
    /// Quads to apply after a successful execution.
    pub assert_quads: Vec<SerializedQuad>,
    pub retract_quads: Vec<SerializedQuad>,
}

/// Context of an invocation (CBOR-decoded from the invoke entry).
#[derive(Debug)]
pub struct InvokeContext {
    /// Named graph the invocation operates on.
    pub graph: String,
    /// Session identifier, for stateful invocations.
    pub session_cid: Option<String>,
    /// CBOR-encoded arguments.
    pub args_cbor: Vec<u8>,
}

/// A quad in an invocation result.
#[derive(Debug)]
pub struct SerializedQuad {
    pub graph: String,
    pub subject: String,
    pub predicate: String,
    pub object_cbor: Vec<u8>,
}

impl SerializedQuad {
    /// The result form of a pending quad (fields moved as they are).
    pub fn from_pending(q: PendingQuad) -> (s: SerializedQuad)
        ensures
            s.graph == q.graph,
            s.subject == q.subject,
            s.predicate == q.predicate,
            s.object_cbor == q.object_cbor,
    {
        SerializedQuad {
            graph: q.graph,
            subject: q.subject,
            predicate: q.predicate,
            object_cbor: q.object_cbor,
        }
    }
}

/// A component-model value returned by a guest, as far as the host reads it.
#[derive(Debug)]
pub enum GuestValue {
    U8(u8),
    List(Vec<GuestValue>),
    Str(String),
    /// Any value of another kind.
    Other,
}

/// What the guest's `run` export returned.
#[derive(Debug)]
pub enum GuestReturn {
    /// `result::ok`, with its payload if any.
    Done(Option<GuestValue>),
    /// `result::err`, with its payload if any.
    Failed(Option<GuestValue>),
    /// A value that is not a `result`.
    Other,
}

/// The bytes among a list's items: each `u8` item in order, others skipped.
pub open spec fn list_bytes(items: Seq<GuestValue>) -> Seq<u8>
    decreases items.len(),
{
    if items.len() == 0 {
        Seq::empty()
    } else {
        let rest = list_bytes(items.drop_last());
        match items.last() {
            GuestValue::U8(b) => rest.push(b),
            _ => rest,
        }
    }
}

/// The outcome of decoding a guest's return value: its output bytes, or the
/// guest error message.
pub open spec fn guest_outcome(r: GuestReturn) -> Result<Seq<u8>, Seq<char>> {
    match r {
        GuestReturn::Done(Some(GuestValue::List(items))) => Ok(list_bytes(items@)),
        GuestReturn::Done(Some(_)) => Err("unexpected output type"@),
        GuestReturn::Failed(Some(GuestValue::Str(m))) => Err(m@),
        GuestReturn::Failed(Some(_)) => Err("unknown guest error"@),
        _ => Err("unexpected result variant"@),
    }
}

fn bytes_of_items(items: &Vec<GuestValue>) -> (out: Vec<u8>)
    ensures
        out@ == list_bytes(items@),
{
    let mut out: Vec<u8> = Vec::new();
    for i in 0..items.len()
        invariant
            out@ == list_bytes(items@.take(i as int)),
    {
        assert(items@.take(i + 1).drop_last() =~= items@.take(i as int));
        match &items[i] {
            GuestValue::U8(b) => out.push(*b),
            _ => {},
        }
    }
    assert(items@.take(items.len() as int) =~= items@);
    out
}

/// Decodes the guest's return value into its output bytes; anything but an
/// `ok` list is a guest error.
pub fn decode_guest_output(r: &GuestReturn) -> (out: Result<Vec<u8>, RuntimeError>)
    ensures
        match guest_outcome(*r) {
            Ok(bytes) => out matches Ok(o) && o@ == bytes,
            Err(m) => out matches Err(RuntimeError::GuestError(e)) && e@ == m,
        },
{
    match r {
        GuestReturn::Done(Some(GuestValue::List(items))) => Ok(bytes_of_items(items)),
        GuestReturn::Done(Some(_)) => Err(RuntimeError::GuestError(String::from_str("unexpected output type"))),
        GuestReturn::Failed(Some(GuestValue::Str(m))) => Err(RuntimeError::GuestError(m.clone())),
        GuestReturn::Failed(Some(_)) => Err(RuntimeError::GuestError(String::from_str("unknown guest error"))),
        _ => Err(RuntimeError::GuestError(String::from_str("unexpected result variant"))),
    }
}

fn serialize_all(qs: Vec<PendingQuad>) -> (out: Vec<SerializedQuad>)
    ensures
        out@.len() == qs@.len(),
        forall|i: int| 0 <= i < qs@.len() ==> same_quad(#[trigger] out@[i], qs@[i]),
{
    let mut out: Vec<SerializedQuad> = Vec::new();
    let mut rest = qs;
    let ghost orig = qs@;
    while rest.len() > 0
        invariant
            out@.len() + rest@.len() == orig.len(),
            rest@ == orig.skip(out@.len() as int),
            forall|i: int| 0 <= i < out@.len() ==> same_quad(#[trigger] out@[i], orig[i]),
        decreases rest@.len(),
    {
        let q = rest.remove(0);
        out.push(SerializedQuad::from_pending(q));
        assert(rest@ =~= orig.skip(out@.len() as int));
    }
    out
}

/// The result quad carries the pending quad's fields unchanged.
pub open spec fn same_quad(s: SerializedQuad, p: PendingQuad) -> bool {
    &&& s.graph == p.graph
    &&& s.subject == p.subject
    &&& s.predicate == p.predicate
    &&& s.object_cbor == p.object_cbor
}

/// Assembles the result of a finished invocation: the output, the gas spent
/// out of `gas_limit`, and the quads the guest asserted and retracted, in order.
pub fn finish_invocation(gas_limit: u64, state: HostState, output_cbor: Vec<u8>) -> (r: InvokeResult)
    requires
        state.gas_remaining <= gas_limit,
    ensures
        r.output_cbor == output_cbor,
        r.gas_used == gas_limit - state.gas_remaining,
        r.assert_quads@.len() == state.pending_asserts@.len(),
        forall|i: int| 0 <= i < state.pending_asserts@.len() ==> same_quad(
            #[trigger] r.assert_quads@[i],
            state.pending_asserts@[i],
        ),
        r.retract_quads@.len() == state.pending_retracts@.len(),
        forall|i: int| 0 <= i < state.pending_retracts@.len() ==> same_quad(
            #[trigger] r.retract_quads@[i],
            state.pending_retracts@[i],
        ),
{
    let gas_used = gas_limit - state.gas_remaining;
    InvokeResult {
        output_cbor,
        gas_used,
        assert_quads: serialize_all(state.pending_asserts),
        retract_quads: serialize_all(state.pending_retracts),
    }
}

/// Completes an invocation once the guest has returned: decodes its output
/// and, if it succeeded, assembles the result from the host state.
pub fn complete_invocation(gas_limit: u64, state: HostState, ret: &GuestReturn) -> (r: Result<
    InvokeResult,
    RuntimeError,
>)
    requires
        state.gas_remaining <= gas_limit,
    ensures
        match guest_outcome(*ret) {
            Ok(bytes) => r matches Ok(res) && res.output_cbor@ == bytes && res.gas_used == gas_limit
                - state.gas_remaining && res.assert_quads@.len() == state.pending_asserts@.len()
                && (forall|i: int|
                0 <= i < state.pending_asserts@.len() ==> same_quad(
                    #[trigger] res.assert_quads@[i],
                    state.pending_asserts@[i],
                )) && res.retract_quads@.len() == state.pending_retracts@.len() && (forall|i: int|
                0 <= i < state.pending_retracts@.len() ==> same_quad(
                    #[trigger] res.retract_quads@[i],
                    state.pending_retracts@[i],
                )),
            Err(m) => r matches Err(RuntimeError::GuestError(e)) && e@ == m,
        },
{
    let output_cbor = decode_guest_output(ret)?;
    Ok(finish_invocation(gas_limit, state, output_cbor))
}

} // verus!
