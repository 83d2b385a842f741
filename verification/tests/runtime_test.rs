use kotoba::runtime::{
    complete_invocation, decode_guest_output, GuestReturn, GuestValue, HostState, PendingQuad,
    RuntimeError, GAS_ASSERT_QUAD, GAS_QUERY,
};

fn pending(tag: &str) -> PendingQuad {
    PendingQuad {
        graph: format!("g-{tag}"),
        subject: format!("s-{tag}"),
        predicate: format!("p-{tag}"),
        object_cbor: tag.as_bytes().to_vec(),
    }
}

#[test]
fn host_state_pending_quads_empty_on_new() {
    let state = HostState::new("did:plc:alice", 5000);
    assert!(state.pending_asserts.is_empty());
    assert!(state.pending_retracts.is_empty());
    assert_eq!(state.agent_did, "did:plc:alice");
    assert_eq!(state.gas_remaining, 5000);
}

#[test]
fn store_gas_accounting() {
    let mut state = HostState::new("did:plc:test", 1000);
    assert_eq!(state.gas_remaining, 1000);
    state.charge_gas(100).expect("charge 100");
    assert_eq!(state.gas_remaining, 900);
    let err = state.charge_gas(901);
    assert!(err.is_err(), "charge beyond limit should fail");
    assert_eq!(state.gas_remaining, 900);
}

#[test]
fn gas_exhaustion_message() {
    let mut state = HostState::new("did:plc:test", 5);
    assert_eq!(state.charge_gas(6), Err("gas exhausted".to_string()));
}

#[test]
fn assert_quad_charges_and_records() {
    let mut state = HostState::new("did:plc:test", 25);
    state.assert_quad(pending("a")).unwrap();
    state.assert_quad(pending("b")).unwrap();
    assert_eq!(state.gas_remaining, 25 - 2 * GAS_ASSERT_QUAD);
    assert_eq!(state.pending_asserts.len(), 2);
    assert_eq!(state.pending_asserts[1].graph, "g-b");
    assert!(state.assert_quad(pending("c")).is_err());
    assert_eq!(state.pending_asserts.len(), 2);
    assert_eq!(state.gas_remaining, 5);
}

#[test]
fn query_serves_no_rows() {
    let mut state = HostState::new("did:plc:test", 150);
    let rows = state.query("?x").unwrap().unwrap();
    assert!(rows.is_empty());
    assert_eq!(state.gas_remaining, 150 - GAS_QUERY);
    assert!(state.query("?x").is_err());
}

#[test]
fn unwired_host_calls_answer_their_errors() {
    let mut state = HostState::new("did:plc:test", 10_000);
    assert_eq!(state.publish("t", b"x").unwrap().unwrap(), "bplaceholder_cid");
    assert_eq!(state.verify_cacao(b"x").unwrap().unwrap_err(), "not implemented");
    assert!(!state.has_capability("r", "a").unwrap());
    assert_eq!(state.infer("m", b"p").unwrap().unwrap_err(), "foreign bridge not yet wired");
    assert_eq!(state.append_infer("m", "p", "o").unwrap().unwrap_err(), "chain append not yet wired");
    assert!(state.head_cid().unwrap().is_none());
    assert_eq!(state.current_did(), "did:plc:test");
}

#[test]
fn gas_exceeded_display_contains_limit() {
    let e = RuntimeError::GasExceeded { limit: 10_000_000 };
    let s = e.message();
    assert!(s.contains("10000000") || s.contains("10_000_000"), "got: {s}");
    assert_eq!(s, "gas limit exceeded (limit=10000000)");
}

#[test]
fn guest_error_display() {
    let e = RuntimeError::GuestError("out of gas".to_string());
    assert!(e.message().contains("out of gas"));
}

#[test]
fn program_not_found_display() {
    let e = RuntimeError::ProgramNotFound("cid123".to_string());
    assert!(e.message().contains("cid123"));
}

#[test]
fn trap_display() {
    let e = RuntimeError::Trap("stack overflow".to_string());
    assert!(e.message().contains("stack overflow"));
    assert_eq!(e.message(), "execution trapped: stack overflow");
}

#[test]
fn guest_output_bytes_are_kept_in_order() {
    let r = GuestReturn::Done(Some(GuestValue::List(vec![
        GuestValue::U8(7),
        GuestValue::Other,
        GuestValue::U8(9),
    ])));
    assert_eq!(decode_guest_output(&r).unwrap(), vec![7u8, 9]);
}

#[test]
fn guest_error_variants_are_reported() {
    let cases = vec![
        (GuestReturn::Done(Some(GuestValue::U8(1))), "unexpected output type"),
        (GuestReturn::Failed(Some(GuestValue::Str("boom".to_string()))), "boom"),
        (GuestReturn::Failed(None), "unexpected result variant"),
        (GuestReturn::Failed(Some(GuestValue::U8(1))), "unknown guest error"),
        (GuestReturn::Other, "unexpected result variant"),
    ];
    for (r, m) in cases {
        match decode_guest_output(&r) {
            Err(RuntimeError::GuestError(e)) => assert_eq!(e, m),
            other => panic!("unexpected {other:?}"),
        }
    }
}

#[test]
fn invocation_reports_gas_used_and_quads() {
    let mut state = HostState::new("did:plc:test", 100);
    state.assert_quad(pending("a")).unwrap();
    state.retract_quad(pending("b")).unwrap();
    let ret = GuestReturn::Done(Some(GuestValue::List(vec![GuestValue::U8(1)])));
    let res = complete_invocation(100, state, &ret).unwrap();
    assert_eq!(res.gas_used, 20);
    assert_eq!(res.output_cbor, vec![1u8]);
    assert_eq!(res.assert_quads.len(), 1);
    assert_eq!(res.assert_quads[0].subject, "s-a");
    assert_eq!(res.retract_quads[0].object_cbor, b"b".to_vec());
}
