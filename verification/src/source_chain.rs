//! Source chains: per-agent, append-only, hash-linked logs of facts.
use vstd::prelude::*;
use crate::cid::{KotobaCid, cid_bytes_of};
use crate::quad::{Quad, QuadView};
use vstd::utf8::encode_utf8;
use crate::debug_text::{
    debug_content, lemma_opt_cid_debug_injective, opt_cid_debug, push_content_debug, push_opt_cid_debug,
};
use crate::text::{decimal, has_prefix, push_decimal, string_from_chars};

verus! {

/// How an invocation entry is dispatched.
#[derive(Debug, Clone, Copy, PartialEq, Eq, Structural)]
pub enum ProgramType {
    /// Evaluated by the Datalog engine.
    Datalog,
    /// Executed as a node program (exports `run`).
    WasmNode,
    /// Executed as a stateless user-defined function (exports `eval`).
    WasmUdf,
}

/// What a chain entry carries.
#[derive(Debug)]
pub enum ChainContent {
    Quad(Quad),
    Commit { graph_cid: KotobaCid, prolly_root: KotobaCid },
    Invoke {
        program_cid: KotobaCid,
        program_type: ProgramType,
        input_topics: Vec<String>,
        max_steps: u32,
        call_id: u64,
    },
    Result {
        call_id: u64,
        /// 0 = ok, 1 = halt, 2 = exceeded, 3 = error
        status: u8,
        steps_used: u32,
    },
    Warrant { accused: Vec<u8>, evidence: KotobaCid, rule_id: u8 },
    /// Inference request.
    Infer {
        model_cid: KotobaCid,
        adapter_cid: Option<KotobaCid>,
        session_cid: Option<KotobaCid>,
        max_tokens: u32,
        call_id: u64,
    },
}

/// Model of a chain entry's content.
pub enum ContentView {
    Quad(QuadView),
    Commit { graph_cid: Seq<u8>, prolly_root: Seq<u8> },
    Invoke {
        program_cid: Seq<u8>,
        program_type: ProgramType,
        input_topics: Seq<Seq<char>>,
        max_steps: u32,
        call_id: u64,
    },
    Result { call_id: u64, status: u8, steps_used: u32 },
    Warrant { accused: Seq<u8>, evidence: Seq<u8>, rule_id: u8 },
    Infer {
        model_cid: Seq<u8>,
        adapter_cid: Option<Seq<u8>>,
        session_cid: Option<Seq<u8>>,
        max_tokens: u32,
        call_id: u64,
    },
}

/// The bytes of an optional identifier.
pub open spec fn opt_cid(c: Option<KotobaCid>) -> Option<Seq<u8>> {
    match c {
        Some(x) => Some(x.0@),
        None => None,
    }
}

impl View for ChainContent {
    type V = ContentView;

    open spec fn view(&self) -> ContentView {
        match self {
            ChainContent::Quad(q) => ContentView::Quad(q@),
            ChainContent::Commit { graph_cid, prolly_root } => ContentView::Commit {
                graph_cid: graph_cid.0@,
                prolly_root: prolly_root.0@,
            },
            ChainContent::Invoke { program_cid, program_type, input_topics, max_steps, call_id } =>
                ContentView::Invoke {
                program_cid: program_cid.0@,
                program_type: *program_type,
                input_topics: Seq::new(input_topics@.len(), |i: int| input_topics@[i]@),
                max_steps: *max_steps,
                call_id: *call_id,
            },
            ChainContent::Result { call_id, status, steps_used } => ContentView::Result {
                call_id: *call_id,
                status: *status,
                steps_used: *steps_used,
            },
            ChainContent::Warrant { accused, evidence, rule_id } => ContentView::Warrant {
                accused: accused@,
                evidence: evidence.0@,
                rule_id: *rule_id,
            },
            ChainContent::Infer { model_cid, adapter_cid, session_cid, max_tokens, call_id } =>
                ContentView::Infer {
                model_cid: model_cid.0@,
                adapter_cid: opt_cid(*adapter_cid),
                session_cid: opt_cid(*session_cid),
                max_tokens: *max_tokens,
                call_id: *call_id,
            },
        }
    }
}

/// The text an entry's identifier is computed from: the `Debug` texts of
/// `prev` and `content` followed by `seq` and `ts` in decimal
/// (`format!("{:?}{:?}{}{}", prev, content, seq, ts)`).
pub open spec fn debug_payload(prev: Option<Seq<u8>>, content: ContentView, seq: u64, ts: u64) -> Seq<char> {
    opt_cid_debug(prev) + debug_content(content) + decimal(seq as nat) + decimal(ts as nat)
}

/// The text an entry's identifier is hashed from commits to the entry it
/// links back to: it starts with the `Debug` text of that link, and two
/// entries that differ only in their link hash different texts.
pub proof fn lemma_payload_commits_to_prev(
    p1: Option<Seq<u8>>,
    p2: Option<Seq<u8>>,
    content: ContentView,
    seq: u64,
    ts: u64,
)
    ensures
        has_prefix(debug_payload(p1, content, seq, ts), opt_cid_debug(p1)),
        p1 != p2 ==> debug_payload(p1, content, seq, ts) != debug_payload(p2, content, seq, ts),
{
    let rest = debug_content(content) + decimal(seq as nat) + decimal(ts as nat);
    let t1 = debug_payload(p1, content, seq, ts);
    let t2 = debug_payload(p2, content, seq, ts);
    assert(t1 =~= opt_cid_debug(p1) + rest);
    assert(t2 =~= opt_cid_debug(p2) + rest);
    assert(t1.take(opt_cid_debug(p1).len() as int) =~= opt_cid_debug(p1));
    if t1 == t2 {
        assert(opt_cid_debug(p1).len() == opt_cid_debug(p2).len());
        assert(t2.take(opt_cid_debug(p2).len() as int) =~= opt_cid_debug(p2));
        lemma_opt_cid_debug_injective(p1, p2);
    }
}

fn entry_payload(prev: &Option<KotobaCid>, content: &ChainContent, seq: u64, ts: u64) -> (s: String)
    ensures
        s@ == debug_payload(opt_cid(*prev), content@, seq, ts),
{
    let mut out: Vec<char> = Vec::new();
    push_opt_cid_debug(&mut out, prev);
    push_content_debug(&mut out, content);
    push_decimal(&mut out, seq);
    push_decimal(&mut out, ts);
    let s = string_from_chars(&out);
    assert(s@ =~= debug_payload(opt_cid(*prev), content@, seq, ts));
    s
}

/// Milliseconds since the Unix epoch (`SystemTime::now`); 0 before the epoch.
#[verifier::external_body]
pub(crate) fn now_ms() -> (t: u64) {
    std::time::SystemTime::now().duration_since(std::time::UNIX_EPOCH).unwrap_or_default().as_millis() as u64
}

/// A signed, ordered, append-only fact of one agent.
#[derive(Debug)]
pub struct ChainEntry {
    pub cid: KotobaCid,
    pub prev: Option<KotobaCid>,
    /// DID of the agent.
    pub agent: String,
    pub seq: u64,
    pub content: ChainContent,
    pub ts: u64,
    /// Ed25519 signature.
    pub sig: Vec<u8>,
}

/// The identifier bytes of an entry with these fields.
pub open spec fn entry_cid_bytes(prev: Option<KotobaCid>, content: ContentView, seq: u64, ts: u64) -> Seq<u8> {
    cid_bytes_of(encode_utf8(debug_payload(opt_cid(prev), content, seq, ts)))
}

impl ChainEntry {
    /// A new entry stamped with the current time; its identifier is computed
    /// from the previous identifier, the content, the sequence number and the time.
    pub fn new(prev: Option<KotobaCid>, agent: String, seq: u64, content: ChainContent, sig: Vec<u8>) -> (e: ChainEntry)
        ensures
            e.prev == prev,
            e.agent == agent,
            e.seq == seq,
            e.content == content,
            e.sig == sig,
            e.cid.0@ == entry_cid_bytes(prev, content@, seq, e.ts),
    {
        let ts = now_ms();
        let payload = entry_payload(&prev, &content, seq, ts);
        let cid = KotobaCid::from_bytes(payload.as_str().as_bytes());
        ChainEntry { cid, prev, agent, seq, content, ts, sig }
    }
}

/// Why an entry was refused.
#[derive(Debug, Clone, Copy, PartialEq, Eq, Structural)]
pub enum ChainError {
    SeqMismatch { expected: u64, got: u64 },
    PrevMismatch,
    InvalidSignature,
}

/// Entries are numbered from 0 and each links to the identifier of the one before it.
#[verifier::opaque]
pub open spec fn linked(entries: Seq<ChainEntry>) -> bool {
    forall|i: int| 0 <= i < entries.len() ==> {
        &&& (#[trigger] entries[i]).seq == i
        &&& if i == 0 {
            entries[i].prev is None
        } else {
            entries[i].prev matches Some(p) && p.0@ == entries[i - 1].cid.0@
        }
    }
}

/// Whether `prev` names the last entry (or is absent on an empty chain).
pub open spec fn prev_matches(entries: Seq<ChainEntry>, prev: Option<KotobaCid>) -> bool {
    if entries.len() == 0 {
        prev is None
    } else {
        prev matches Some(p) && p.0@ == entries.last().cid.0@
    }
}

proof fn lemma_linked_push(s: Seq<ChainEntry>, e: ChainEntry)
    requires
        linked(s),
        e.seq == s.len(),
        prev_matches(s, e.prev),
    ensures
        linked(s.push(e)),
{
    reveal(linked);
    let t = s.push(e);
    assert forall|i: int| 0 <= i < t.len() implies {
        &&& (#[trigger] t[i]).seq == i
        &&& if i == 0 {
            t[i].prev is None
        } else {
            t[i].prev matches Some(p) && p.0@ == t[i - 1].cid.0@
        }
    } by {
        if i < s.len() {
            assert(t[i] == s[i]);
        }
        if i > 0 {
            assert(t[i - 1] == s[i - 1]);
        }
    }
}

/// Per-agent append-only log.
pub struct SourceChain {
    pub agent: String,
    entries: Vec<ChainEntry>,
}

impl SourceChain {
    /// The agent's DID.
    pub closed spec fn agent_did(&self) -> Seq<char> {
        self.agent@
    }

    /// The entries, oldest first.
    pub closed spec fn entries(&self) -> Seq<ChainEntry> {
        self.entries@
    }

    /// An empty chain for an agent.
    pub fn new(agent: &str) -> (c: SourceChain)
        ensures
            c.agent_did() == agent@,
            c.entries() == Seq::<ChainEntry>::empty(),
            linked(c.entries()),
    {
        let c = SourceChain { agent: agent.to_owned(), entries: Vec::new() };
        assert(linked(c.entries())) by {
            reveal(linked);
        }
        c
    }

    fn head_matches(&self, prev: &Option<KotobaCid>) -> (ok: bool)
        ensures
            ok == prev_matches(self.entries(), *prev),
    {
        let n = self.entries.len();
        if n == 0 {
            prev.is_none()
        } else {
            match prev {
                Some(p) => *p == self.entries[n - 1].cid,
                None => false,
            }
        }
    }

    /// Appends an entry whose sequence number is the chain's length and whose
    /// `prev` is the identifier of the current head.
    pub fn append(&mut self, entry: ChainEntry) -> (r: Result<(), ChainError>)
        requires
            linked(old(self).entries()),
        ensures
            linked(final(self).entries()),
            final(self).agent_did() == old(self).agent_did(),
            entry.seq != old(self).entries().len() ==> r == Err::<(), ChainError>(ChainError::SeqMismatch {
                expected: old(self).entries().len() as u64,
                got: entry.seq,
            }),
            entry.seq == old(self).entries().len() && !prev_matches(old(self).entries(), entry.prev)
                ==> r == Err::<(), ChainError>(ChainError::PrevMismatch),
            entry.seq == old(self).entries().len() && prev_matches(old(self).entries(), entry.prev)
                ==> r is Ok,
            r is Ok ==> final(self).entries() == old(self).entries().push(entry),
            r is Err ==> final(self).entries() == old(self).entries(),
    {
        let n = self.entries.len();
        let expected_seq = n as u64;
        if entry.seq != expected_seq {
            return Err(ChainError::SeqMismatch { expected: expected_seq, got: entry.seq });
        }
        let ok = self.head_matches(&entry.prev);
        if !ok {
            return Err(ChainError::PrevMismatch);
        }
        proof {
            lemma_linked_push(self.entries@, entry);
        }
        self.entries.push(entry);
        Ok(())
    }

    /// The most recent entry.
    pub fn head(&self) -> (r: Option<&ChainEntry>)
        ensures
            r == (if self.entries().len() == 0 {
                None::<&ChainEntry>
            } else {
                Some(&self.entries().last())
            }),
    {
        if self.entries.len() == 0 {
            None
        } else {
            Some(&self.entries[self.entries.len() - 1])
        }
    }

    /// Number of entries.
    pub fn len(&self) -> (n: usize)
        ensures
            n == self.entries().len(),
    {
        self.entries.len()
    }

    /// Whether the chain has no entry.
    pub fn is_empty(&self) -> (b: bool)
        ensures
            b == (self.entries().len() == 0),
    {
        self.entries.len() == 0
    }
}

} // verus!
