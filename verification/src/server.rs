//! The node's XRPC surface: endpoint identifiers, request and response
//! shapes, and the decisions the handlers make (request checks, graph
//! read access, email lookups); the HTTP plumbing lives with the server binary.
use vstd::prelude::*;
use vstd::utf8::encode_utf8;
use crate::cacao::{
    cacao_error_text, resource_after, sig_verifies, strings_view, Cacao, CacaoError, CacaoPayload,
    DelegationChain, DelegationError,
};
use crate::cid::{cid_bytes_of, multibase_of, parse_multibase, KotobaCid};
use crate::codec::{b64_decode_text, b64_decoded, b64_encode, b64_encode_bytes};
use crate::quad::{ObjectView, Quad, QuadObject, QuadView};
use crate::runtime::{InvokeResult, SerializedQuad};
use crate::source_chain::ProgramType;
use crate::sparql::{debug_quoted, debug_str};
use crate::text::{
    chars_of, decimal, has_prefix, push_decimal, push_str_chars, starts_with_chars,
    string_from_chars,
};
use crate::vm::{ExecResult, ExecStatus};

verus! {

/// Version reported by the node.
pub const VERSION: &'static str = "0.1.0";

/// Server state shared by the handlers.
#[derive(Debug)]
pub struct KotobaState {
    pub version: &'static str,
}

impl KotobaState {
    /// State reporting this build's version.
    pub fn new() -> (s: KotobaState)
        ensures
            s.version@ == VERSION@,
    {
        KotobaState { version: VERSION }
    }
}

pub const NSID_QUAD_CREATE: &'static str = "ai.gftd.apps.kotoba.quad.create";
pub const NSID_QUAD_RETRACT: &'static str = "ai.gftd.apps.kotoba.quad.retract";
pub const NSID_GRAPH_QUERY: &'static str = "ai.gftd.apps.kotoba.graph.query";
pub const NSID_COMMIT_GET: &'static str = "ai.gftd.apps.kotoba.commit.get";
pub const NSID_INVOKE_RUN: &'static str = "ai.gftd.apps.kotoba.invoke.run";
pub const NSID_INFER_RUN: &'static str = "ai.gftd.apps.kotoba.infer.run";
pub const NSID_WEIGHT_PUT: &'static str = "ai.gftd.apps.kotoba.weight.put";
pub const NSID_LORA_APPLY: &'static str = "ai.gftd.apps.kotoba.lora.apply";
pub const NSID_EMBED_CREATE: &'static str = "ai.gftd.apps.kotoba.embed.create";
pub const NSID_NODE_STATUS: &'static str = "ai.gftd.apps.kotoba.node.status";

/// Body of `quad.create`.
#[derive(Debug)]
pub struct QuadCreateReq {
    pub graph: String,
    pub subject: String,
    pub predicate: String,
    pub object: String,
}

/// Answer of `quad.create`.
#[derive(Debug)]
pub struct QuadCreateResp {
    pub status: &'static str,
    pub journal_cid: String,
}

/// Body of `invoke.run`.
#[derive(Debug)]
pub struct InvokeRunReq {
    pub program_cid: String,
    /// `wasm-node`, `wasm-udf` or `datalog`.
    pub program_type: String,
    pub agent_did: String,
    pub wasm_b64: Option<String>,
    pub ctx_b64: Option<String>,
}

/// Answer of `invoke.run`.
#[derive(Debug)]
pub struct InvokeRunResp {
    pub status: &'static str,
    pub gas_used: u64,
    pub output_b64: String,
    pub assert_count: usize,
    pub retract_count: usize,
    /// Journal entries created for the asserted quads.
    pub journal_cids: Vec<String>,
}

/// Answer of the health endpoint.
#[derive(Debug)]
pub struct HealthResp {
    pub status: &'static str,
    pub version: &'static str,
    pub subsystems: SubsystemStatus,
    pub node: NodeInfo,
}

/// Readiness of each subsystem.
#[derive(Debug)]
pub struct SubsystemStatus {
    pub kse_journal: &'static str,
    pub kse_shelf: &'static str,
    pub wasm_executor: &'static str,
    pub udf_executor: &'static str,
    pub invoke_router: &'static str,
}

/// This node in the neighbourhood.
#[derive(Debug)]
pub struct NodeInfo {
    pub node_id: String,
    pub peer_count: usize,
}

/// The health answer: everything ready, with the node's identity.
pub fn health_response(state: &KotobaState, node_id: String, peer_count: usize) -> (r: HealthResp)
    ensures
        r.status@ == "ok"@,
        r.version == state.version,
        r.subsystems.kse_journal@ == "ready"@,
        r.subsystems.kse_shelf@ == "ready"@,
        r.subsystems.wasm_executor@ == "ready"@,
        r.subsystems.udf_executor@ == "ready"@,
        r.subsystems.invoke_router@ == "ready"@,
        r.node.node_id == node_id,
        r.node.peer_count == peer_count,
{
    HealthResp {
        status: "ok",
        version: state.version,
        subsystems: SubsystemStatus {
            kse_journal: "ready",
            kse_shelf: "ready",
            wasm_executor: "ready",
            udf_executor: "ready",
            invoke_router: "ready",
        },
        node: NodeInfo { node_id, peer_count },
    }
}

/// The quad a `quad.create` request denotes: graph and subject named by the
/// identifiers of their texts, the object as text.
pub fn quad_of_request(req: &QuadCreateReq) -> (q: Quad)
    ensures
        q@ == (QuadView {
            graph: cid_bytes_of(encode_utf8(req.graph@)),
            subject: cid_bytes_of(encode_utf8(req.subject@)),
            predicate: req.predicate@,
            object: ObjectView::Text(req.object@),
        }),
{
    Quad {
        graph: KotobaCid::from_bytes(req.graph.as_str().as_bytes()),
        subject: KotobaCid::from_bytes(req.subject.as_str().as_bytes()),
        predicate: req.predicate.clone(),
        object: QuadObject::Text(req.object.clone()),
    }
}

/// An HTTP refusal: status code and message.
pub type Refusal = (u16, String);

/// The program type named in a request.
pub open spec fn program_type_named(s: Seq<char>) -> Option<ProgramType> {
    if s == "wasm-node"@ {
        Some(ProgramType::WasmNode)
    } else if s == "wasm-udf"@ {
        Some(ProgramType::WasmUdf)
    } else if s == "datalog"@ {
        Some(ProgramType::Datalog)
    } else {
        None
    }
}

fn same_text(a: &str, b: &str) -> (r: bool)
    ensures
        r == (a@ == b@),
{
    let x = chars_of(a);
    let y = chars_of(b);
    if x.len() != y.len() {
        return false;
    }
    let mut k: usize = 0;
    while k < x.len()
        invariant
            x@ == a@,
            y@ == b@,
            x@.len() == y@.len(),
            k <= x@.len(),
            forall|m: int| 0 <= m < k ==> x@[m] == y@[m],
        decreases x@.len() - k,
    {
        if x[k] != y[k] {
            assert(x@[k as int] != y@[k as int]);
            return false;
        }
        k += 1;
    }
    assert(x@ =~= y@);
    true
}

fn prefixed(prefix: &str, rest: &str) -> (s: String)
    ensures
        s@ == prefix@ + rest@,
{
    let mut out: Vec<char> = Vec::new();
    push_str_chars(&mut out, prefix);
    push_str_chars(&mut out, rest);
    string_from_chars(&out)
}

/// Reads the program type of an `invoke.run` request; an unknown one is a
/// bad request.
pub fn parse_program_type(s: &str) -> (r: Result<ProgramType, Refusal>)
    ensures
        match program_type_named(s@) {
            Some(t) => r == Ok::<ProgramType, Refusal>(t),
            None => r matches Err((code, msg)) && code == 400 && msg@ == "unknown program_type: "@ + s@,
        },
{
    if same_text(s, "wasm-node") {
        Ok(ProgramType::WasmNode)
    } else if same_text(s, "wasm-udf") {
        Ok(ProgramType::WasmUdf)
    } else if same_text(s, "datalog") {
        Ok(ProgramType::Datalog)
    } else {
        Err((400, prefixed("unknown program_type: ", s)))
    }
}

/// The decoded inputs of an `invoke.run` request: program bytes and context.
pub open spec fn invoke_inputs_of(
    t: ProgramType,
    wasm_b64: Option<Seq<char>>,
    ctx_b64: Option<Seq<char>>,
) -> Result<(Seq<u8>, Seq<u8>), (u16, Seq<char>)> {
    let wasm: Result<Seq<u8>, (u16, Seq<char>)> = match wasm_b64 {
        Some(b) => match b64_decoded(b) {
            Ok(v) => Ok(v),
            Err(e) => Err((400u16, e)),
        },
        None => if t != ProgramType::Datalog {
            Err((400u16, "wasm_b64 required for wasm programs"@))
        } else {
            Ok(Seq::empty())
        },
    };
    match wasm {
        Err(e) => Err(e),
        Ok(w) => match ctx_b64 {
            Some(c) => match b64_decoded(c) {
                Ok(v) => Ok((w, v)),
                Err(e) => Err((400u16, e)),
            },
            None => Ok((w, Seq::empty())),
        },
    }
}

/// Decodes the base64 program bytes and context of an `invoke.run` request;
/// wasm programs need program bytes.
pub fn invoke_inputs(t: ProgramType, wasm_b64: Option<&str>, ctx_b64: Option<&str>) -> (r: Result<
    (Vec<u8>, Vec<u8>),
    Refusal,
>)
    ensures
        match invoke_inputs_of(
            t,
            match wasm_b64 {
                Some(b) => Some(b@),
                None => None,
            },
            match ctx_b64 {
                Some(c) => Some(c@),
                None => None,
            },
        ) {
            Ok((w, c)) => r matches Ok((rw, rc)) && rw@ == w && rc@ == c,
            Err((code, m)) => r matches Err((rcode, rm)) && rcode == code && rm@ == m,
        },
{
    let wasm: Vec<u8> = match wasm_b64 {
        Some(b) => match b64_decode_text(b) {
            Ok(v) => v,
            Err(e) => {
                return Err((400, e));
            },
        },
        None => {
            if t != ProgramType::Datalog {
                return Err((400, String::from_str("wasm_b64 required for wasm programs")));
            }
            Vec::new()
        },
    };
    let ctx: Vec<u8> = match ctx_b64 {
        Some(c) => match b64_decode_text(c) {
            Ok(v) => v,
            Err(e) => {
                return Err((400, e));
            },
        },
        None => Vec::new(),
    };
    Ok((wasm, ctx))
}

/// The quad published for a quad a program asserted or retracted: graph and
/// subject named by the identifiers of their texts, the object's CBOR bytes.
pub fn quad_of_serialized(sq: &SerializedQuad) -> (q: Quad)
    ensures
        q@ == (QuadView {
            graph: cid_bytes_of(encode_utf8(sq.graph@)),
            subject: cid_bytes_of(encode_utf8(sq.subject@)),
            predicate: sq.predicate@,
            object: ObjectView::Bytes(sq.object_cbor@),
        }),
{
    Quad {
        graph: KotobaCid::from_bytes(sq.graph.as_str().as_bytes()),
        subject: KotobaCid::from_bytes(sq.subject.as_str().as_bytes()),
        predicate: sq.predicate.clone(),
        object: QuadObject::Bytes(sq.object_cbor.clone()),
    }
}

/// The answer to a WASM invocation: gas, base64 output, quad counts and the
/// journal entries of the asserted quads.
pub fn invoke_response_wasm(r: &InvokeResult, journal_cids: Vec<String>) -> (resp: InvokeRunResp)
    ensures
        resp.status@ == "ok"@,
        resp.gas_used == r.gas_used,
        resp.output_b64@ == b64_encode(r.output_cbor@),
        resp.assert_count == r.assert_quads@.len(),
        resp.retract_count == r.retract_quads@.len(),
        resp.journal_cids == journal_cids,
{
    InvokeRunResp {
        status: "ok",
        gas_used: r.gas_used,
        output_b64: b64_encode_bytes(r.output_cbor.as_slice()),
        assert_count: r.assert_quads.len(),
        retract_count: r.retract_quads.len(),
        journal_cids,
    }
}

/// How an execution status is reported.
pub open spec fn status_text(s: ExecStatus) -> Seq<char> {
    match s {
        ExecStatus::Completed => "Ok"@,
        ExecStatus::Halt => "Halt"@,
        ExecStatus::StepsExceeded => "StepsExceeded"@,
        ExecStatus::Failed => "Error"@,
    }
}

fn status_name(s: ExecStatus) -> (t: &'static str)
    ensures
        t@ == status_text(s),
{
    match s {
        ExecStatus::Completed => "Ok",
        ExecStatus::Halt => "Halt",
        ExecStatus::StepsExceeded => "StepsExceeded",
        ExecStatus::Failed => "Error",
    }
}

/// The answer to a Datalog invocation: steps as gas, the status name in
/// base64 as output, the derived deltas as asserts.
pub fn invoke_response_datalog(r: &ExecResult) -> (resp: InvokeRunResp)
    ensures
        resp.status@ == "ok"@,
        resp.gas_used == r.steps_used,
        resp.output_b64@ == b64_encode(encode_utf8(status_text(r.status))),
        resp.assert_count == r.out_deltas@.len(),
        resp.retract_count == 0,
        resp.journal_cids@.len() == 0,
{
    let name = status_name(r.status);
    InvokeRunResp {
        status: "ok",
        gas_used: r.steps_used as u64,
        output_b64: b64_encode_bytes(name.as_bytes()),
        assert_count: r.out_deltas.len(),
        retract_count: 0,
        journal_cids: Vec::new(),
    }
}

/// Who may read a named graph.
#[derive(Debug)]
pub enum GraphVisibility {
    Public,
    Authenticated,
    Private { owner_did: String },
}

/// Why a graph read was refused.
#[derive(Debug)]
pub enum AccessDenied {
    NotDenied,
    MissingBearer,
    MissingCacao,
    CacaoDecodeError(String),
    CacaoParseError(String),
    DelegationError(String),
    IssuerMismatch { expected: String, got: String },
}

impl AccessDenied {
    /// The HTTP answer: status code and message.
    pub fn into_response(self) -> (r: Refusal)
        ensures
            match self {
                AccessDenied::NotDenied => r.0 == 200 && r.1@ == Seq::<char>::empty(),
                AccessDenied::MissingBearer => r.0 == 401 && r.1@
                    == "Authorization: Bearer <token> required for authenticated graphs"@,
                AccessDenied::MissingCacao => r.0 == 401 && r.1@
                    == "cacao_b64 query param required for private graphs"@,
                AccessDenied::CacaoDecodeError(e) => r.0 == 400 && r.1@ == "cacao_b64 base64 decode error: "@
                    + e@,
                AccessDenied::CacaoParseError(e) => r.0 == 400 && r.1@ == "cacao parse error: "@ + e@,
                AccessDenied::DelegationError(e) => r.0 == 401 && r.1@ == "cacao delegation error: "@ + e@,
                AccessDenied::IssuerMismatch { expected, got } => r.0 == 401 && r.1@
                    == "cacao issuer mismatch: expected "@ + expected@ + ", got "@ + got@,
            },
    {
        match self {
            AccessDenied::NotDenied => (200, String::new()),
            AccessDenied::MissingBearer => (
                401,
                String::from_str("Authorization: Bearer <token> required for authenticated graphs"),
            ),
            AccessDenied::MissingCacao => (
                401,
                String::from_str("cacao_b64 query param required for private graphs"),
            ),
            AccessDenied::CacaoDecodeError(e) => (400, prefixed("cacao_b64 base64 decode error: ", e.as_str())),
            AccessDenied::CacaoParseError(e) => (400, prefixed("cacao parse error: ", e.as_str())),
            AccessDenied::DelegationError(e) => (401, prefixed("cacao delegation error: ", e.as_str())),
            AccessDenied::IssuerMismatch { expected, got } => {
                let mut out: Vec<char> = Vec::new();
                push_str_chars(&mut out, "cacao issuer mismatch: expected ");
                push_str_chars(&mut out, expected.as_str());
                push_str_chars(&mut out, ", got ");
                push_str_chars(&mut out, got.as_str());
                let m = string_from_chars(&out);
                assert(m@ =~= "cacao issuer mismatch: expected "@ + expected@ + ", got "@ + got@);
                (401, m)
            },
        }
    }
}

/// Whether an `Authorization` value carries a non-empty bearer token.
pub open spec fn bearer_ok(auth: Option<Seq<char>>) -> bool {
    match auth {
        Some(a) => has_prefix(a, "Bearer "@) && encode_utf8(a).len() > 7,
        None => false,
    }
}

fn bearer_present(auth: Option<&str>) -> (b: bool)
    ensures
        b == bearer_ok(
            match auth {
                Some(a) => Some(a@),
                None => None,
            },
        ),
{
    match auth {
        Some(a) => {
            let cs = chars_of(a);
            let p = chars_of("Bearer ");
            starts_with_chars(&cs, &p) && a.as_bytes().len() > 7
        },
        None => false,
    }
}

/// The first step of a graph read check. Public graphs are open;
/// authenticated graphs need a non-empty bearer token; private graphs need
/// a base64 CACAO, whose CBOR is handed back to be parsed and checked by
/// `check_private_access`.
pub fn check_read_access(
    visibility: &GraphVisibility,
    auth_header: Option<&str>,
    cacao_b64: Option<&str>,
) -> (r: Result<Option<Vec<u8>>, AccessDenied>)
    ensures
        visibility is Public ==> r matches Ok(None),
        visibility is Authenticated ==> if bearer_ok(
            match auth_header {
                Some(a) => Some(a@),
                None => None,
            },
        ) {
            r matches Ok(None)
        } else {
            r matches Err(AccessDenied::MissingBearer)
        },
        visibility is Private ==> match cacao_b64 {
            None => r matches Err(AccessDenied::MissingCacao),
            Some(b) => match b64_decoded(b@) {
                Ok(cbor) => r matches Ok(Some(v)) && v@ == cbor,
                Err(e) => r matches Err(AccessDenied::CacaoDecodeError(m)) && m@ == e,
            },
        },
{
    match visibility {
        GraphVisibility::Public => Ok(None),
        GraphVisibility::Authenticated => {
            if bearer_present(auth_header) {
                Ok(None)
            } else {
                Err(AccessDenied::MissingBearer)
            }
        },
        GraphVisibility::Private { .. } => {
            let b64 = match cacao_b64 {
                Some(b) => b,
                None => {
                    return Err(AccessDenied::MissingCacao);
                },
            };
            match b64_decode_text(b64) {
                Ok(cbor) => Ok(Some(cbor)),
                Err(e) => Err(AccessDenied::CacaoDecodeError(e)),
            }
        },
    }
}

fn delegation_message(e: &DelegationError) -> (s: String)
    ensures
        e is EmptyChain ==> s@ == "empty delegation chain"@,
{
    match e {
        DelegationError::EmptyChain => String::from_str("empty delegation chain"),
        DelegationError::InvalidSignature(m) => prefixed("invalid signature: ", m.as_str()),
        DelegationError::CapabilityDenied(m) => prefixed("capability not granted: ", m.as_str()),
        DelegationError::Expired => String::from_str("expired"),
        DelegationError::RootMismatch => String::from_str("root issuer mismatch"),
    }
}

/// Why a CACAO's capabilities do not grant reading `owner`'s private graph,
/// if they do not: the `kotoba://can/` resource must be `quad:read`, and a
/// `kotoba://graph/` resource, when present, must name `private/<owner>`.
pub open spec fn read_grant_error(p: CacaoPayload, owner: Seq<char>) -> Option<Seq<char>> {
    let rs = strings_view(p.resources@);
    if resource_after(rs, "kotoba://can/"@) != Some("quad:read"@) {
        Some("capability not granted: quad:read"@)
    } else {
        match resource_after(rs, "kotoba://graph/"@) {
            Some(g) => if g == "private/"@ + owner {
                None
            } else {
                Some("capability not granted: graph "@ + g)
            },
            None => None,
        }
    }
}

/// What a private-graph check gives once the signature was verified with
/// result `v`: a verified issuer must be the owner; a failed verification
/// is a delegation error.
pub open spec fn private_access_after(owner: Seq<char>, v: Result<String, CacaoError>, r: Result<(), AccessDenied>) -> bool {
    match v {
        Ok(iss) => if iss@ == owner {
            r is Ok
        } else {
            r matches Err(AccessDenied::IssuerMismatch { expected, got }) && expected@ == owner && got@
                == iss@
        },
        Err(e) => r matches Err(AccessDenied::DelegationError(m)) && m@ == "invalid signature: "@
            + cacao_error_text(e),
    }
}

fn same_opt_text(a: Option<&str>, b: &str) -> (r: bool)
    ensures
        r == (match a {
            Some(x) => x@ == b@,
            None => false,
        }),
{
    match a {
        Some(x) => same_text(x, b),
        None => false,
    }
}

/// The rest of a private-graph check, once the CACAO's CBOR was parsed (or
/// failed to parse, with a message): the delegation chain of the CACAO must
/// verify for `private/<owner>` with `quad:read`, the CACAO must grant
/// `quad:read` on that graph, its signature must verify, and the verified
/// issuer must be the owner.
pub fn check_private_access(owner_did: &str, parsed: Result<Cacao, String>) -> (r: Result<(), AccessDenied>)
    ensures
        match parsed {
            Err(e) => r matches Err(AccessDenied::CacaoParseError(m)) && m@ == e@,
            Ok(c) => match read_grant_error(c.p, owner_did@) {
                Some(m) => r matches Err(AccessDenied::DelegationError(x)) && x@ == m,
                None => exists|v: Result<String, CacaoError>|
                    #[trigger] sig_verifies(c, v) && private_access_after(owner_did@, v, r),
            },
        },
        r is Ok ==> (parsed matches Ok(c) && read_grant_error(c.p, owner_did@) is None && exists|
            v: Result<String, CacaoError>,
        | #[trigger] sig_verifies(c, v) && (v matches Ok(iss) && iss@ == owner_did@)),
{
    proof {
        reveal_strlit("quad:read");
        reveal_strlit("private/");
    }
    let cacao = match parsed {
        Ok(c) => c,
        Err(e) => {
            return Err(AccessDenied::CacaoParseError(e));
        },
    };
    let scope = prefixed("private/", owner_did);
    let cap = cacao.p.capability();
    if !same_opt_text(cap, "quad:read") {
        return Err(AccessDenied::DelegationError(String::from_str("capability not granted: quad:read")));
    }
    match cacao.p.graph_cid() {
        Some(g) => {
            if !same_text(g, scope.as_str()) {
                return Err(AccessDenied::DelegationError(prefixed("capability not granted: graph ", g)));
            }
        },
        None => {},
    }
    let verified = cacao.verify_signature();
    let ghost v = verified;
    let issuer = match verified {
        Ok(d) => d,
        Err(e) => {
            let m = e.message();
            return Err(AccessDenied::DelegationError(prefixed("invalid signature: ", m.as_str())));
        },
    };
    let chain = DelegationChain::new(cacao);
    match chain.verify(scope.as_str(), "quad:read") {
        Ok(()) => {},
        Err(e) => {
            return Err(AccessDenied::DelegationError(delegation_message(&e)));
        },
    }
    if !same_text(issuer.as_str(), owner_did) {
        return Err(AccessDenied::IssuerMismatch { expected: owner_did.to_owned(), got: issuer });
    }
    Ok(())
}

pub const NSID_EMAIL_LIST: &'static str = "ai.gftd.apps.kotoba.email.list";
pub const NSID_EMAIL_READ: &'static str = "ai.gftd.apps.kotoba.email.read";
pub const NSID_EMAIL_INGEST: &'static str = "ai.gftd.apps.kotoba.email.ingest";

/// Longest accepted owner DID, in bytes.
pub const MAX_OWNER_DID_LEN: usize = 512;
/// Longest accepted email identifier, in bytes.
pub const MAX_EMAIL_CID_LEN: usize = 256;
/// Longest accepted base64 raw message (25 MiB raw is about 33 MiB base64).
pub const MAX_RAW_B64_LEN: usize = 34 * 1024 * 1024;
/// Longest accepted thread identifier, in bytes (the ingestor's limit).
pub const MAX_THREAD_ID_LEN: usize = 256;
/// Largest raw message the ingestor accepts, in bytes.
pub const MAX_EMAIL_BYTES: usize = 25 * 1024 * 1024;

/// Query of `email.list`.
#[derive(Debug)]
pub struct EmailListQuery {
    pub owner_did: String,
    pub limit: Option<usize>,
    pub offset: Option<usize>,
}

/// Query of `email.read`.
#[derive(Debug)]
pub struct EmailReadQuery {
    pub email_cid: String,
    pub owner_did: String,
}

/// Body of `email.ingest`.
#[derive(Debug)]
pub struct EmailIngestBody {
    /// Base64 raw RFC 2822 message.
    pub raw_b64: String,
    pub thread_id: Option<String>,
    pub owner_did: String,
}

/// Answer of `email.ingest`.
#[derive(Debug)]
pub struct EmailIngestResponse {
    pub status: &'static str,
    pub email_cid: String,
}

fn refusal_with_number(code: u16, head: &str, n: u64, tail: &str) -> (r: Refusal)
    ensures
        r.0 == code,
        r.1@ == head@ + decimal(n as nat) + tail@,
{
    let mut out: Vec<char> = Vec::new();
    push_str_chars(&mut out, head);
    push_decimal(&mut out, n);
    push_str_chars(&mut out, tail);
    let m = string_from_chars(&out);
    assert(m@ =~= head@ + decimal(n as nat) + tail@);
    (code, m)
}

/// Checks the length of an email identifier: 1 to 256 bytes.
pub fn check_email_cid(email_cid: &str) -> (r: Result<(), Refusal>)
    ensures
        1 <= encode_utf8(email_cid@).len() <= MAX_EMAIL_CID_LEN <==> r is Ok,
        r matches Err((code, m)) ==> code == 400 && m@ == "email_cid must be 1–"@ + decimal(
            MAX_EMAIL_CID_LEN as nat,
        ) + " bytes"@,
{
    let n = email_cid.as_bytes().len();
    if n == 0 || n > MAX_EMAIL_CID_LEN {
        return Err(refusal_with_number(400, "email_cid must be 1–", MAX_EMAIL_CID_LEN as u64, " bytes"));
    }
    Ok(())
}

/// The checks of an `email.read` request, in order: the owner DID
/// (`owner_check`), the email identifier's length, then the bearer
/// authorization (`auth_check`); the first refusal is the answer.
pub fn email_read_checks(owner_check: Result<(), Refusal>, email_cid: &str, auth_check: Result<(), Refusal>) -> (r: Result<(), Refusal>)
    ensures
        owner_check is Err ==> r == owner_check,
        owner_check is Ok && !(1 <= encode_utf8(email_cid@).len() <= MAX_EMAIL_CID_LEN) ==> (r matches Err(
            (code, m),
        ) && code == 400 && m@ == "email_cid must be 1–"@ + decimal(MAX_EMAIL_CID_LEN as nat) + " bytes"@),
        owner_check is Ok && 1 <= encode_utf8(email_cid@).len() <= MAX_EMAIL_CID_LEN ==> r == auth_check,
{
    owner_check?;
    check_email_cid(email_cid)?;
    auth_check
}

/// The checks of an `email.ingest` request before decoding, in order: the
/// owner DID (`owner_check`), the body's sizes, then the bearer
/// authorization (`auth_check`); the first refusal is the answer.
pub fn email_ingest_checks(owner_check: Result<(), Refusal>, body: &EmailIngestBody, auth_check: Result<(), Refusal>) -> (r: Result<(), Refusal>)
    ensures
        owner_check is Err ==> r == owner_check,
        owner_check is Ok ==> match ingest_body_refusal(*body) {
            Some((c, m)) => r matches Err((rc, rm)) && rc == c && rm@ == m,
            None => r == auth_check,
        },
{
    owner_check?;
    check_ingest_body(body)?;
    auth_check
}

/// The checks of an `email.list` request, in order: the owner DID, then the
/// bearer authorization.
pub fn email_list_checks(owner_check: Result<(), Refusal>, auth_check: Result<(), Refusal>) -> (r: Result<(), Refusal>)
    ensures
        owner_check is Err ==> r == owner_check,
        owner_check is Ok ==> r == auth_check,
{
    owner_check?;
    auth_check
}

/// The bytes of an optional text (empty when absent).
pub open spec fn text_bytes(t: Option<String>) -> Seq<u8> {
    match t {
        Some(s) => encode_utf8(s@),
        None => Seq::empty(),
    }
}

/// The refusal of an ingest body, if any: an empty raw message, then a raw
/// message over `MAX_RAW_B64_LEN` bytes, then a thread identifier over
/// `MAX_THREAD_ID_LEN` bytes.
pub open spec fn ingest_body_refusal(body: EmailIngestBody) -> Option<(u16, Seq<char>)> {
    let n = encode_utf8(body.raw_b64@).len();
    if n == 0 {
        Some((400u16, "raw_b64 must not be empty"@))
    } else if n > MAX_RAW_B64_LEN {
        Some((413u16, "raw_b64 exceeds "@ + decimal(MAX_RAW_B64_LEN as nat) + " bytes"@))
    } else if text_bytes(body.thread_id).len() > MAX_THREAD_ID_LEN {
        Some((400u16, "thread_id exceeds "@ + decimal(MAX_THREAD_ID_LEN as nat) + " bytes"@))
    } else {
        None
    }
}

/// Checks an ingest body before decoding: a non-empty raw message of at
/// most `MAX_RAW_B64_LEN` bytes and a thread identifier of at most
/// `MAX_THREAD_ID_LEN` bytes.
pub fn check_ingest_body(body: &EmailIngestBody) -> (r: Result<(), Refusal>)
    ensures
        match ingest_body_refusal(*body) {
            Some((c, m)) => r matches Err((rc, rm)) && rc == c && rm@ == m,
            None => r is Ok,
        },
        encode_utf8(body.raw_b64@).len() == 0 ==> (r matches Err((code, m)) && code == 400 && m@
            == "raw_b64 must not be empty"@),
        0 < encode_utf8(body.raw_b64@).len() && encode_utf8(body.raw_b64@).len() > MAX_RAW_B64_LEN
            ==> (r matches Err((code, m)) && code == 413 && m@ == "raw_b64 exceeds "@ + decimal(
            MAX_RAW_B64_LEN as nat,
        ) + " bytes"@),
        0 < encode_utf8(body.raw_b64@).len() <= MAX_RAW_B64_LEN && text_bytes(body.thread_id).len()
            > MAX_THREAD_ID_LEN ==> (r matches Err((code, m)) && code == 400 && m@ == "thread_id exceeds "@
            + decimal(MAX_THREAD_ID_LEN as nat) + " bytes"@),
        0 < encode_utf8(body.raw_b64@).len() <= MAX_RAW_B64_LEN && text_bytes(body.thread_id).len()
            <= MAX_THREAD_ID_LEN ==> r is Ok,
{
    let n = body.raw_b64.as_str().as_bytes().len();
    if n == 0 {
        return Err((400, String::from_str("raw_b64 must not be empty")));
    }
    if n > MAX_RAW_B64_LEN {
        return Err(refusal_with_number(413, "raw_b64 exceeds ", MAX_RAW_B64_LEN as u64, " bytes"));
    }
    let t = match &body.thread_id {
        Some(t) => t.as_str().as_bytes().len(),
        None => 0,
    };
    if t > MAX_THREAD_ID_LEN {
        return Err(refusal_with_number(400, "thread_id exceeds ", MAX_THREAD_ID_LEN as u64, " bytes"));
    }
    Ok(())
}

/// Checks the size of a decoded raw message against the ingestor's limit.
pub fn check_decoded_size(n: usize) -> (r: Result<(), Refusal>)
    ensures
        n <= MAX_EMAIL_BYTES <==> r is Ok,
        r matches Err((code, m)) ==> code == 413 && m@ == "decoded email exceeds "@ + decimal(
            MAX_EMAIL_BYTES as nat,
        ) + " bytes"@,
{
    if n > MAX_EMAIL_BYTES {
        return Err(refusal_with_number(413, "decoded email exceeds ", MAX_EMAIL_BYTES as u64, " bytes"));
    }
    Ok(())
}

/// The text of the first quad about `subject` with `predicate` whose object
/// is text; empty when there is none.
pub open spec fn text_of(quads: Seq<QuadView>, subject: Seq<u8>, predicate: Seq<char>) -> Seq<char>
    decreases quads.len(),
{
    if quads.len() == 0 {
        Seq::empty()
    } else {
        let q = quads[0];
        if q.subject == subject && q.predicate == predicate && q.object is Text {
            q.object->Text_0
        } else {
            text_of(quads.drop_first(), subject, predicate)
        }
    }
}

/// The models of a slice of quads.
pub open spec fn quad_models(qs: Seq<Quad>) -> Seq<QuadView> {
    qs.map_values(|q: Quad| q@)
}

/// The text of the first quad about `subject` with `predicate` whose object
/// is text, or the empty text.
pub fn text_from_quads(quads: &[Quad], subject: &KotobaCid, predicate: &str) -> (t: String)
    ensures
        t@ == text_of(quad_models(quads@), subject.0@, predicate@),
{
    let ghost qs = quad_models(quads@);
    let mut i: usize = 0;
    assert(qs.skip(0) =~= qs);
    while i < quads.len()
        invariant
            i <= quads@.len(),
            qs == quad_models(quads@),
            text_of(qs, subject.0@, predicate@) == text_of(qs.skip(i as int), subject.0@, predicate@),
        decreases quads@.len() - i,
    {
        let q = &quads[i];
        assert(qs.skip(i as int)[0] == q@);
        assert(qs.skip(i as int).drop_first() =~= qs.skip(i + 1));
        if q.subject == *subject && same_text(q.predicate.as_str(), predicate) {
            match &q.object {
                QuadObject::Text(t) => {
                    return t.clone();
                },
                _ => {},
            }
        }
        i += 1;
    }
    String::new()
}

/// What an `email.read` looks up: the email's identifier and its body blob's.
pub open spec fn email_lookup(quads: Seq<QuadView>, email_cid: Seq<char>) -> Result<(Seq<u8>, Seq<u8>), (u16, Seq<char>)> {
    if quads.len() == 0 {
        Err((404u16, "no emails found for owner_did"@))
    } else {
        match parse_multibase(email_cid) {
            None => Err((400u16, "invalid email_cid multibase"@)),
            Some(e) => {
                let body = text_of(quads, e, "email/body_cid"@);
                if body.len() == 0 {
                    Err((404u16, "email body_cid not found"@))
                } else {
                    match parse_multibase(body) {
                        None => Err((500u16, "invalid body_cid multibase"@)),
                        Some(b) => Ok((e, b)),
                    }
                }
            },
        }
    }
}

/// Finds the email and its body blob among the owner's quads.
pub fn lookup_email(quads: &[Quad], email_cid: &str) -> (r: Result<(KotobaCid, KotobaCid), Refusal>)
    ensures
        match email_lookup(quad_models(quads@), email_cid@) {
            Ok((e, b)) => r matches Ok((re, rb)) && re.0@ == e && rb.0@ == b,
            Err((code, m)) => r matches Err((rc, rm)) && rc == code && rm@ == m,
        },
{
    if quads.len() == 0 {
        return Err((404, String::from_str("no emails found for owner_did")));
    }
    let email = match KotobaCid::from_multibase(email_cid) {
        Some(c) => c,
        None => {
            return Err((400, String::from_str("invalid email_cid multibase")));
        },
    };
    let body = text_from_quads(quads, &email, "email/body_cid");
    if body.as_str().unicode_len() == 0 {
        return Err((404, String::from_str("email body_cid not found")));
    }
    match KotobaCid::from_multibase(body.as_str()) {
        Some(b) => Ok((email, b)),
        None => Err((500, String::from_str("invalid body_cid multibase"))),
    }
}

/// The prefix of sealed field values.
pub open spec fn sealed_prefix() -> Seq<char> {
    "signal:v1:"@
}

/// Whether a stored field value is sealed and must be opened.
pub fn needs_open(envelope: &str) -> (b: bool)
    ensures
        b == (envelope@.len() > 0 && has_prefix(envelope@, sealed_prefix())),
{
    let cs = chars_of(envelope);
    let p = chars_of("signal:v1:");
    cs.len() > 0 && starts_with_chars(&cs, &p)
}

/// The value shown for a stored field: the opened plaintext, or the stored
/// value itself when it is not sealed or opening failed.
pub fn field_value(envelope: &str, opened: Option<Result<String, String>>) -> (v: String)
    requires
        opened is Some <==> (envelope@.len() > 0 && has_prefix(envelope@, sealed_prefix())),
    ensures
        match opened {
            Some(Ok(p)) => v@ == p@,
            _ => v@ == envelope@,
        },
{
    match opened {
        Some(Ok(p)) => p,
        _ => envelope.to_owned(),
    }
}

/// The transaction under which an ingested email is committed: the
/// identifier of `email.ingest:<owner>:<email multibase>`.
pub fn ingest_tx_cid(owner_did: &str, email_cid: &KotobaCid) -> (c: KotobaCid)
    ensures
        c.0@ == cid_bytes_of(encode_utf8("email.ingest:"@ + owner_did@ + ":"@ + multibase_of(email_cid.0@))),
{
    let mut out: Vec<char> = Vec::new();
    push_str_chars(&mut out, "email.ingest:");
    push_str_chars(&mut out, owner_did);
    push_str_chars(&mut out, ":");
    push_str_chars(&mut out, email_cid.to_multibase().as_str());
    let s = string_from_chars(&out);
    assert(s@ =~= "email.ingest:"@ + owner_did@ + ":"@ + multibase_of(email_cid.0@));
    KotobaCid::from_bytes(s.as_str().as_bytes())
}

/// The refusal when a bearer's subject is neither the owner nor the operator.
pub open spec fn sub_mismatch(owner_did: Seq<char>) -> Seq<char> {
    "Bearer sub does not match owner_did "@ + debug_str(owner_did)
}

/// The bearer token of an `Authorization` value (`Bearer <token>`).
pub fn bearer_token(auth: Option<&str>) -> (r: Result<String, Refusal>)
    ensures
        match auth {
            Some(a) if has_prefix(a@, "Bearer "@) => r matches Ok(t) && t@ == a@.skip(7),
            _ => r matches Err((code, m)) && code == 401 && m@ == "Authorization: Bearer <token> required"@,
        },
{
    match auth {
        Some(a) => {
            let cs = chars_of(a);
            let p = chars_of("Bearer ");
            proof {
                reveal_strlit("Bearer ");
            }
            if starts_with_chars(&cs, &p) {
                let rest = crate::text::sub_chars(&cs, 7, cs.len());
                assert(rest@ =~= a@.skip(7));
                return Ok(string_from_chars(&rest));
            }
            Err((401, String::from_str("Authorization: Bearer <token> required")))
        },
        None => Err((401, String::from_str("Authorization: Bearer <token> required"))),
    }
}

/// Decides an email request once the bearer token was read: an expired
/// token, or one without a subject, is refused; the subject must be the
/// owner or the operator.
pub fn authorize_email(expired: bool, sub: Option<&str>, owner_did: &str, operator_did: &str) -> (r: Result<(), Refusal>)
    ensures
        expired ==> (r matches Err((code, m)) && code == 401 && m@ == "Bearer token has expired"@),
        !expired && sub is None ==> (r matches Err((code, m)) && code == 401 && m@
            == "Bearer token missing sub claim"@),
        !expired ==> (sub matches Some(s) ==> (if s@ == owner_did@ || s@ == operator_did@ {
            r is Ok
        } else {
            r matches Err((code, m)) && code == 401 && m@ == sub_mismatch(owner_did@)
        })),
{
    if expired {
        return Err((401, String::from_str("Bearer token has expired")));
    }
    let s = match sub {
        Some(s) => s,
        None => {
            return Err((401, String::from_str("Bearer token missing sub claim")));
        },
    };
    if same_text(s, owner_did) || same_text(s, operator_did) {
        Ok(())
    } else {
        Err((401, prefixed("Bearer sub does not match owner_did ", debug_quoted(owner_did).as_str())))
    }
}

/// Lexicographic order of texts by code point (`str` ordering).
pub open spec fn text_lt(a: Seq<char>, b: Seq<char>) -> bool
    decreases a.len(),
{
    if b.len() == 0 {
        false
    } else if a.len() == 0 {
        true
    } else if a[0] != b[0] {
        (a[0] as u32) < (b[0] as u32)
    } else {
        text_lt(a.drop_first(), b.drop_first())
    }
}

fn text_less(a: &Vec<char>, b: &Vec<char>) -> (r: bool)
    ensures
        r == text_lt(a@, b@),
{
    let mut k: usize = 0;
    assert(a@.skip(0) =~= a@);
    assert(b@.skip(0) =~= b@);
    while k < a.len() && k < b.len() && a[k] == b[k]
        invariant
            k <= a@.len(),
            k <= b@.len(),
            text_lt(a@, b@) == text_lt(a@.skip(k as int), b@.skip(k as int)),
        decreases a@.len() - k,
    {
        assert(a@.skip(k as int).drop_first() =~= a@.skip(k + 1));
        assert(b@.skip(k as int).drop_first() =~= b@.skip(k + 1));
        k += 1;
    }
    if k == b.len() {
        return false;
    }
    if k == a.len() {
        return true;
    }
    (a[k] as u32) < (b[k] as u32)
}

/// A dated email: its identifier and date text.
pub type Dated = (Seq<u8>, Seq<char>);

/// The dated emails among quads: each `email/date` quad with a text object,
/// in order.
pub open spec fn dated_emails(quads: Seq<QuadView>) -> Seq<Dated>
    decreases quads.len(),
{
    if quads.len() == 0 {
        Seq::empty()
    } else {
        let rest = dated_emails(quads.drop_last());
        let q = quads.last();
        if q.predicate == "email/date"@ && q.object is Text {
            rest.push((q.subject, q.object->Text_0))
        } else {
            rest
        }
    }
}

/// Where an email goes among emails sorted newest first: after every one
/// whose date is not earlier.
pub open spec fn insert_pos(t: Seq<Dated>, x: Dated) -> int
    decreases t.len(),
{
    if t.len() == 0 {
        0
    } else if text_lt(t[0].1, x.1) {
        0
    } else {
        1 + insert_pos(t.drop_first(), x)
    }
}

/// Emails sorted by date, newest first; emails with the same date keep
/// their order (a stable sort).
pub open spec fn newest_first(s: Seq<Dated>) -> Seq<Dated>
    decreases s.len(),
{
    if s.len() == 0 {
        Seq::empty()
    } else {
        let t = newest_first(s.drop_last());
        t.insert(insert_pos(t, s.last()), s.last())
    }
}

proof fn lemma_newest_first_len(s: Seq<Dated>)
    ensures
        newest_first(s).len() == s.len(),
    decreases s.len(),
{
    if s.len() > 0 {
        lemma_newest_first_len(s.drop_last());
        lemma_insert_pos_range(newest_first(s.drop_last()), s.last());
    }
}

proof fn lemma_insert_pos_range(t: Seq<Dated>, x: Dated)
    ensures
        0 <= insert_pos(t, x) <= t.len(),
    decreases t.len(),
{
    if t.len() > 0 {
        lemma_insert_pos_range(t.drop_first(), x);
    }
}

/// No email comes before one with a later date.
pub open spec fn dates_descending(s: Seq<Dated>) -> bool {
    forall|i: int, j: int| 0 <= i < j < s.len() ==> !text_lt(#[trigger] s[i].1, #[trigger] s[j].1)
}

proof fn lemma_text_lt_asym(a: Seq<char>, b: Seq<char>)
    requires
        text_lt(a, b),
    ensures
        !text_lt(b, a),
    decreases a.len(),
{
    if a.len() > 0 && b.len() > 0 && a[0] == b[0] {
        lemma_text_lt_asym(a.drop_first(), b.drop_first());
    }
}

proof fn lemma_text_lt_trans(a: Seq<char>, b: Seq<char>, c: Seq<char>)
    requires
        text_lt(a, b),
        text_lt(b, c),
    ensures
        text_lt(a, c),
    decreases a.len(),
{
    if a.len() > 0 && a[0] == b[0] && b[0] == c[0] {
        lemma_text_lt_trans(a.drop_first(), b.drop_first(), c.drop_first());
    }
}

proof fn lemma_char_code(c: char)
    ensures
        (c as u32) as int == c as int,
{
}

proof fn lemma_text_lt_total(a: Seq<char>, b: Seq<char>)
    requires
        a != b,
    ensures
        text_lt(a, b) || text_lt(b, a),
    decreases a.len(),
{
    if a.len() == 0 && b.len() == 0 {
        assert(a =~= b);
    } else if a.len() > 0 && b.len() > 0 {
        if a[0] == b[0] {
            if a.drop_first() == b.drop_first() {
                assert(a.drop_first().len() == a.len() - 1);
                assert(b.drop_first().len() == b.len() - 1);
                assert(a =~= b) by {
                    assert forall|i: int| 0 <= i < a.len() implies a[i] == b[i] by {
                        if i > 0 {
                            assert(a[i] == a.drop_first()[i - 1]);
                            assert(b[i] == b.drop_first()[i - 1]);
                        }
                    }
                }
            }
            lemma_text_lt_total(a.drop_first(), b.drop_first());
        } else {
            lemma_char_code(a[0]);
            lemma_char_code(b[0]);
        }
    }
}

proof fn lemma_insert_pos_bounds(t: Seq<Dated>, x: Dated)
    ensures
        forall|k: int| 0 <= k < insert_pos(t, x) ==> !text_lt(#[trigger] t[k].1, x.1),
        insert_pos(t, x) < t.len() ==> text_lt(t[insert_pos(t, x)].1, x.1),
    decreases t.len(),
{
    lemma_insert_pos_range(t, x);
    if t.len() > 0 && !text_lt(t[0].1, x.1) {
        let u = t.drop_first();
        lemma_insert_pos_bounds(u, x);
        lemma_insert_pos_range(u, x);
        assert(insert_pos(t, x) == 1 + insert_pos(u, x));
        assert forall|k: int| 0 <= k < insert_pos(t, x) implies !text_lt(#[trigger] t[k].1, x.1) by {
            if k > 0 {
                assert(t[k] == u[k - 1]);
            }
        }
        if insert_pos(t, x) < t.len() {
            assert(t[insert_pos(t, x)] == u[insert_pos(u, x)]);
        }
    }
}

proof fn lemma_insert_sorted(t: Seq<Dated>, x: Dated)
    requires
        dates_descending(t),
    ensures
        dates_descending(t.insert(insert_pos(t, x), x)),
{
    let p = insert_pos(t, x);
    lemma_insert_pos_range(t, x);
    lemma_insert_pos_bounds(t, x);
    let u = t.insert(p, x);
    assert forall|i: int, j: int| 0 <= i < j < u.len() implies !text_lt(#[trigger] u[i].1, #[trigger] u[j].1) by {
        if i < p && j == p {
        } else if i == p {
            // u[j] is t[j - 1], at or after t[p], which is earlier than x.
            let y = t[j - 1].1;
            let z = t[p].1;
            assert(text_lt(z, x.1));
            if j - 1 > p {
                assert(!text_lt(z, y));
            }
            if y != z {
                lemma_text_lt_total(y, z);
            }
            if text_lt(y, z) {
                lemma_text_lt_trans(y, z, x.1);
            }
            if text_lt(x.1, y) {
                lemma_text_lt_asym(y, x.1);
            }
        } else if j < p {
            assert(u[i] == t[i] && u[j] == t[j]);
        } else if i < p {
            assert(u[i] == t[i] && u[j] == t[j - 1]);
        } else {
            assert(u[i] == t[i - 1] && u[j] == t[j - 1]);
        }
    }
}

proof fn lemma_insert_multiset(t: Seq<Dated>, p: int, x: Dated)
    requires
        0 <= p <= t.len(),
    ensures
        t.insert(p, x).to_multiset() =~= t.to_multiset().insert(x),
{
    broadcast use vstd::seq_lib::group_to_multiset_ensures;

    let u = t.insert(p, x);
    assert(u.remove(p) =~= t);
    assert(u[p] == x);
    assert(u.remove(p).to_multiset() =~= u.to_multiset().remove(x));
    assert(u.to_multiset().count(x) > 0) by {
        assert(u.contains(x));
    }
}

/// The listing order is a sort: every email of the input appears as often
/// as in the input, and no email comes before one with a later date.
pub proof fn lemma_newest_first_sorts(s: Seq<Dated>)
    ensures
        dates_descending(newest_first(s)),
        newest_first(s).to_multiset() =~= s.to_multiset(),
    decreases s.len(),
{
    broadcast use vstd::seq_lib::group_to_multiset_ensures;

    if s.len() > 0 {
        let t = newest_first(s.drop_last());
        lemma_newest_first_sorts(s.drop_last());
        lemma_insert_sorted(t, s.last());
        lemma_insert_pos_range(t, s.last());
        lemma_insert_multiset(t, insert_pos(t, s.last()), s.last());
        assert(s =~= s.drop_last().push(s.last()));
    } else {
        assert(s.to_multiset() =~= vstd::multiset::Multiset::empty());
    }
}

/// One page of the email listing.
#[derive(Debug)]
pub struct EmailListPage {
    /// Identifier, date and message id of each listed email.
    pub entries: Vec<(KotobaCid, String, String)>,
    pub total: usize,
    pub offset: usize,
    pub limit: usize,
}

/// The page size asked for, at most 200 (50 by default).
pub open spec fn page_limit(limit: Option<usize>) -> usize {
    let l = match limit {
        Some(l) => l,
        None => 50usize,
    };
    if l < 200 {
        l
    } else {
        200
    }
}

spec fn dated_models(v: Seq<(KotobaCid, String)>) -> Seq<Dated> {
    v.map_values(|e: (KotobaCid, String)| (e.0.0@, e.1@))
}

fn find_insert_pos(t: &Vec<(KotobaCid, String)>, date: &Vec<char>) -> (p: usize)
    ensures
        p == insert_pos(dated_models(t@), (Seq::empty(), date@)),
{
    let ghost tm = dated_models(t@);
    let mut p: usize = 0;
    assert(tm.skip(0) =~= tm);
    while p < t.len()
        invariant
            p <= t@.len(),
            tm == dated_models(t@),
            insert_pos(tm, (Seq::empty(), date@)) == p + insert_pos(tm.skip(p as int), (Seq::empty(), date@)),
        decreases t@.len() - p,
    {
        let d = chars_of(t[p].1.as_str());
        assert(tm.skip(p as int)[0] == tm[p as int]);
        if text_less(&d, date) {
            return p;
        }
        assert(tm.skip(p as int).drop_first() =~= tm.skip(p + 1));
        p += 1;
    }
    p
}

/// One page of an owner's emails, newest first: the dated emails sorted by
/// date, `offset` skipped (0 by default), at most `page_limit(limit)` kept,
/// each with its message id.
pub fn email_list_page(quads: &[Quad], offset: Option<usize>, limit: Option<usize>) -> (r: EmailListPage)
    ensures
        r.total == dated_emails(quad_models(quads@)).len(),
        r.offset == match offset {
            Some(o) => o,
            None => 0usize,
        },
        r.limit == page_limit(limit),
        forall|i: int| 0 <= i < r.entries@.len() ==> {
            let e = newest_first(dated_emails(quad_models(quads@)))[r.offset + i];
            &&& (#[trigger] r.entries@[i]).0.0@ == e.0
            &&& r.entries@[i].1@ == e.1
            &&& r.entries@[i].2@ == text_of(quad_models(quads@), e.0, "email/message_id"@)
        },
        r.offset <= r.total ==> r.entries@.len() == (if r.total - r.offset < r.limit {
            r.total - r.offset
        } else {
            r.limit as int
        }),
        r.offset > r.total ==> r.entries@.len() == 0,
{
    let ghost qs = quad_models(quads@);
    // Dated emails, in order.
    let mut dated: Vec<(KotobaCid, String)> = Vec::new();
    for i in 0..quads.len()
        invariant
            qs == quad_models(quads@),
            dated_models(dated@) == dated_emails(qs.take(i as int)),
    {
        let q = &quads[i];
        assert(qs.take(i + 1).drop_last() =~= qs.take(i as int));
        assert(qs.take(i + 1).last() == q@);
        if same_text(q.predicate.as_str(), "email/date") {
            match &q.object {
                QuadObject::Text(t) => {
                    let ghost before = dated_models(dated@);
                    dated.push((q.subject, t.clone()));
                    assert(dated_models(dated@) =~= before.push((q@.subject, t@)));
                },
                _ => {},
            }
        }
    }
    assert(qs.take(quads@.len() as int) =~= qs);
    let ghost ds = dated_models(dated@);
    // Stable insertion sort, newest first.
    let mut sorted: Vec<(KotobaCid, String)> = Vec::new();
    let mut k: usize = 0;
    while k < dated.len()
        invariant
            k <= dated@.len(),
            ds == dated_models(dated@),
            dated_models(sorted@) == newest_first(ds.take(k as int)),
        decreases dated@.len() - k,
    {
        let date = chars_of(dated[k].1.as_str());
        let p = find_insert_pos(&sorted, &date);
        proof {
            lemma_insert_pos_range(dated_models(sorted@), (Seq::empty(), date@));
            assert(ds.take(k + 1).drop_last() =~= ds.take(k as int));
            assert(ds.take(k + 1).last() == ds[k as int]);
            assert(insert_pos(dated_models(sorted@), (Seq::empty(), date@)) == insert_pos(
                dated_models(sorted@),
                ds[k as int],
            )) by {
                lemma_insert_pos_key(dated_models(sorted@), (Seq::empty(), date@), ds[k as int]);
            }
        }
        let ghost before = dated_models(sorted@);
        sorted.insert(p, (dated[k].0, dated[k].1.clone()));
        assert(dated_models(sorted@) =~= before.insert(p as int, ds[k as int]));
        k += 1;
    }
    assert(ds.take(dated@.len() as int) =~= ds);
    let ghost sv = newest_first(ds);
    proof {
        lemma_newest_first_len(ds);
    }
    let total = sorted.len();
    let off: usize = match offset {
        Some(o) => o,
        None => 0,
    };
    let lim0: usize = match limit {
        Some(l) => l,
        None => 50,
    };
    let lim: usize = if lim0 < 200 { lim0 } else { 200 };
    let mut entries: Vec<(KotobaCid, String, String)> = Vec::new();
    if off < total {
        let avail = total - off;
        let n = if avail < lim { avail } else { lim };
        for j in 0..n
            invariant
                n <= total - off,
                off < total == sorted@.len(),
                sv == dated_models(sorted@),
                qs == quad_models(quads@),
                entries@.len() == j,
                forall|i: int| 0 <= i < j ==> {
                    let e = sv[off + i];
                    &&& (#[trigger] entries@[i]).0.0@ == e.0
                    &&& entries@[i].1@ == e.1
                    &&& entries@[i].2@ == text_of(qs, e.0, "email/message_id"@)
                },
        {
            let e = &sorted[off + j];
            let mid = text_from_quads(quads, &e.0, "email/message_id");
            entries.push((e.0, e.1.clone(), mid));
        }
    }
    EmailListPage { entries, total, offset: off, limit: lim }
}

proof fn lemma_insert_pos_key(t: Seq<Dated>, x: Dated, y: Dated)
    requires
        x.1 == y.1,
    ensures
        insert_pos(t, x) == insert_pos(t, y),
    decreases t.len(),
{
    if t.len() > 0 {
        lemma_insert_pos_key(t.drop_first(), x, y);
    }
}

} // verus!
