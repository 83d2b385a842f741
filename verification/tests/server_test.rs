use kotoba::cacao::{default_version, Cacao, CacaoHeader, CacaoPayload, CacaoSig, DelegationChain, DelegationError};
use kotoba::cid::KotobaCid;
use kotoba::quad::QuadObject;
use kotoba::runtime::{InvokeResult, SerializedQuad};
use kotoba::server::{
    check_private_access, check_read_access, health_response, invoke_inputs, invoke_response_datalog,
    invoke_response_wasm, parse_program_type, quad_of_request, quad_of_serialized, AccessDenied,
    GraphVisibility, KotobaState, QuadCreateReq, NSID_INVOKE_RUN, NSID_QUAD_CREATE, VERSION,
};
use kotoba::source_chain::ProgramType;
use kotoba::sparql::{SparqlQuery, TriplePattern, VarOrTerm};
use kotoba::vm::{ExecResult, ExecStatus};

fn payload(iss: &str, resources: Vec<&str>) -> CacaoPayload {
    CacaoPayload {
        iss: iss.to_string(),
        aud: "did:web:node".to_string(),
        issued_at: "2024-01-01T00:00:00Z".to_string(),
        expiry: None,
        nonce: "n0nce".to_string(),
        domain: "kotoba.example.com".to_string(),
        statement: None,
        version: default_version(),
        resources: resources.into_iter().map(|r| r.to_string()).collect(),
    }
}

fn cacao(p: CacaoPayload) -> Cacao {
    Cacao {
        h: CacaoHeader { t: "eip4361".to_string() },
        p,
        s: CacaoSig { t: "EdDSA".to_string(), s: "sig".to_string() },
    }
}

#[test]
fn siwe_message_lines() {
    let mut p = payload("did:pkh:eip155:1:0xabc", vec!["kotoba://graph/g1", "kotoba://can/quad:read"]);
    p.statement = Some("Sign in".to_string());
    p.expiry = Some("2024-02-01T00:00:00Z".to_string());
    let m = cacao(p).siwe_message();
    assert_eq!(
        m,
        "kotoba.example.com wants you to sign in with your Ethereum account:\n\
         0xabc\n\
         \n\
         Sign in\n\
         \n\
         URI: did:web:node\n\
         Version: 1\n\
         Chain ID: 1\n\
         Nonce: n0nce\n\
         Issued At: 2024-01-01T00:00:00Z\n\
         Expiration Time: 2024-02-01T00:00:00Z\n\
         Resources:\n\
         - kotoba://graph/g1\n\
         - kotoba://can/quad:read"
    );
}

#[test]
fn siwe_message_chain_id_defaults() {
    let m = cacao(payload("0xabc", vec![])).siwe_message();
    assert!(m.contains("\n0xabc\n"));
    assert!(m.contains("Chain ID: 1\n"));
    assert!(!m.contains("Resources:"));
    let m = cacao(payload("did:erc725:gftd:260425:0xdef", vec![])).siwe_message();
    assert!(m.contains("Chain ID: 260425\n"));
}

#[test]
fn resource_capabilities() {
    let p = payload("did:x", vec!["https://a", "kotoba://graph/first", "kotoba://can/quad:read", "kotoba://graph/second"]);
    assert_eq!(p.graph_cid(), Some("first"));
    assert_eq!(p.capability(), Some("quad:read"));
    assert_eq!(p.proof_cid(), None);
}

#[test]
fn delegation_chain_verifies_when_not_empty() {
    let chain = DelegationChain::new(cacao(payload("did:x", vec![])));
    assert!(chain.verify("g", "quad:read").is_ok());
    let empty = DelegationChain { chain: vec![] };
    assert!(matches!(empty.verify("g", "quad:read"), Err(DelegationError::EmptyChain)));
}

#[test]
fn state_reports_version() {
    let s = KotobaState::new();
    assert_eq!(s.version, VERSION);
    let h = health_response(&s, "00ff".to_string(), 3);
    assert_eq!(h.status, "ok");
    assert_eq!(h.subsystems.invoke_router, "ready");
    assert_eq!(h.node.peer_count, 3);
}

#[test]
fn xrpc_nsids() {
    assert_eq!(NSID_QUAD_CREATE, "ai.gftd.apps.kotoba.quad.create");
    assert_eq!(NSID_INVOKE_RUN, "ai.gftd.apps.kotoba.invoke.run");
}

#[test]
fn quad_create_request_becomes_text_quad() {
    let req = QuadCreateReq {
        graph: "g".to_string(),
        subject: "s".to_string(),
        predicate: "p".to_string(),
        object: "o".to_string(),
    };
    let q = quad_of_request(&req);
    assert_eq!(q.graph, KotobaCid::from_bytes(b"g"));
    assert_eq!(q.subject, KotobaCid::from_bytes(b"s"));
    assert!(matches!(q.object, QuadObject::Text(ref t) if t == "o"));
}

#[test]
fn program_types_are_parsed() {
    assert_eq!(parse_program_type("wasm-node").unwrap(), ProgramType::WasmNode);
    assert_eq!(parse_program_type("wasm-udf").unwrap(), ProgramType::WasmUdf);
    assert_eq!(parse_program_type("datalog").unwrap(), ProgramType::Datalog);
    assert_eq!(parse_program_type("lua").unwrap_err(), (400, "unknown program_type: lua".to_string()));
}

#[test]
fn invoke_inputs_are_decoded() {
    assert_eq!(invoke_inputs(ProgramType::WasmNode, Some("aGVsbG8="), None).unwrap(), (b"hello".to_vec(), vec![]));
    assert_eq!(
        invoke_inputs(ProgramType::WasmUdf, None, None).unwrap_err(),
        (400, "wasm_b64 required for wasm programs".to_string())
    );
    assert_eq!(invoke_inputs(ProgramType::Datalog, None, Some("AQI=")).unwrap(), (vec![], vec![1, 2]));
    assert_eq!(invoke_inputs(ProgramType::Datalog, Some("a"), None).unwrap_err().0, 400);
}

#[test]
fn invoke_responses() {
    let r = InvokeResult {
        output_cbor: b"hi".to_vec(),
        gas_used: 7,
        assert_quads: vec![SerializedQuad {
            graph: "g".to_string(),
            subject: "s".to_string(),
            predicate: "p".to_string(),
            object_cbor: vec![1],
        }],
        retract_quads: vec![],
    };
    let resp = invoke_response_wasm(&r, vec!["c1".to_string()]);
    assert_eq!(resp.output_b64, "aGk=");
    assert_eq!(resp.assert_count, 1);
    assert_eq!(resp.gas_used, 7);
    let q = quad_of_serialized(&r.assert_quads[0]);
    assert!(matches!(q.object, QuadObject::Bytes(ref b) if b == &vec![1u8]));

    let e = ExecResult { call_id: 0, status: ExecStatus::Completed, out_deltas: vec![], steps_used: 3 };
    let resp = invoke_response_datalog(&e);
    assert_eq!(resp.gas_used, 3);
    assert_eq!(resp.output_b64, "T2s=");
    assert_eq!(resp.retract_count, 0);
}

#[test]
fn graph_read_access_tiers() {
    assert!(matches!(check_read_access(&GraphVisibility::Public, None, None), Ok(None)));
    assert!(matches!(check_read_access(&GraphVisibility::Authenticated, Some("Bearer t"), None), Ok(None)));
    assert!(matches!(
        check_read_access(&GraphVisibility::Authenticated, Some("Bearer "), None),
        Err(AccessDenied::MissingBearer)
    ));
    let private = GraphVisibility::Private { owner_did: "did:o".to_string() };
    assert!(matches!(check_read_access(&private, None, None), Err(AccessDenied::MissingCacao)));
    assert!(matches!(check_read_access(&private, None, Some("%%")), Err(AccessDenied::CacaoDecodeError(_))));
    match check_read_access(&private, None, Some("AQID")) {
        Ok(Some(b)) => assert_eq!(b, vec![1, 2, 3]),
        other => panic!("unexpected {other:?}"),
    }
}

#[test]
fn private_access_needs_owner_issuer() {
    match check_private_access("did:o", Ok(cacao(payload("did:o", vec![])))) {
        Err(AccessDenied::DelegationError(m)) => assert_eq!(m, "capability not granted: quad:read"),
        other => panic!("unexpected {other:?}"),
    }
    match check_private_access("did:o", Ok(cacao(payload("did:o", vec!["kotoba://can/quad:read", "kotoba://graph/g1"])))) {
        Err(AccessDenied::DelegationError(m)) => assert_eq!(m, "capability not granted: graph g1"),
        other => panic!("unexpected {other:?}"),
    }
    // The signature text "sig" is neither base64url of 64 bytes nor hex.
    match check_private_access("did:o", Ok(cacao(payload("did:o", vec!["kotoba://can/quad:read"])))) {
        Err(AccessDenied::DelegationError(m)) => assert!(m.starts_with("invalid signature: "), "{m}"),
        other => panic!("unexpected {other:?}"),
    }
    let (code, msg) = check_private_access("did:o", Err("eof".to_string())).unwrap_err().into_response();
    assert_eq!(code, 400);
    assert_eq!(msg, "cacao parse error: eof");
}

#[test]
fn access_denied_responses() {
    assert_eq!(AccessDenied::MissingBearer.into_response().0, 401);
    assert_eq!(
        AccessDenied::IssuerMismatch { expected: "a".to_string(), got: "b".to_string() }.into_response().1,
        "cacao issuer mismatch: expected a, got b"
    );
}

#[test]
fn sparql_bgp_to_atoms() {
    let q = SparqlQuery {
        bgp: vec![TriplePattern {
            subject: VarOrTerm::Variable("?s".to_string()),
            predicate: VarOrTerm::Iri("http://x/p".to_string()),
            object: VarOrTerm::Literal("a \"b\"".to_string()),
        }],
        filters: vec![],
    };
    assert_eq!(q.to_datalog_atoms(), vec!["quad(G, ?s, \"http://x/p\", \"a \\\"b\\\"\")".to_string()]);
}
