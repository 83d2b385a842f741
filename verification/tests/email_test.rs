use kotoba::cid::KotobaCid;
use kotoba::quad::{Quad, QuadObject};
use kotoba::server::{
    authorize_email, bearer_token, check_decoded_size, email_ingest_checks, email_list_checks,
    email_read_checks, check_email_cid, check_ingest_body,
    email_list_page, field_value, ingest_tx_cid, lookup_email, needs_open, text_from_quads,
    EmailIngestBody, MAX_EMAIL_BYTES, MAX_EMAIL_CID_LEN, MAX_OWNER_DID_LEN, MAX_RAW_B64_LEN,
    MAX_THREAD_ID_LEN, NSID_EMAIL_INGEST, NSID_EMAIL_LIST, NSID_EMAIL_READ,
};

#[test]
fn nsid_constants_have_correct_prefix() {
    let prefix = "ai.gftd.apps.kotoba.email.";
    assert!(NSID_EMAIL_LIST.starts_with(prefix));
    assert!(NSID_EMAIL_READ.starts_with(prefix));
    assert!(NSID_EMAIL_INGEST.starts_with(prefix));
}

#[test]
fn size_limits_are_sane() {
    assert!(MAX_OWNER_DID_LEN >= 64);
    assert!(MAX_EMAIL_CID_LEN >= 32);
    assert!(MAX_RAW_B64_LEN >= 1024);
}

#[test]
fn nsid_email_list_exact_value() {
    assert_eq!(NSID_EMAIL_LIST, "ai.gftd.apps.kotoba.email.list");
}

#[test]
fn nsid_email_read_exact_value() {
    assert_eq!(NSID_EMAIL_READ, "ai.gftd.apps.kotoba.email.read");
}

#[test]
fn nsid_email_ingest_exact_value() {
    assert_eq!(NSID_EMAIL_INGEST, "ai.gftd.apps.kotoba.email.ingest");
}

#[test]
fn nsid_email_constants_are_unique() {
    let mut set = std::collections::HashSet::new();
    assert!(set.insert(NSID_EMAIL_LIST));
    assert!(set.insert(NSID_EMAIL_READ));
    assert!(set.insert(NSID_EMAIL_INGEST));
}

#[test]
fn max_raw_b64_len_is_34_mib() {
    assert_eq!(MAX_RAW_B64_LEN, 34 * 1024 * 1024);
}

#[test]
fn email_cid_len_cap_smaller_than_did_len_cap() {
    assert!(
        MAX_EMAIL_CID_LEN < MAX_OWNER_DID_LEN,
        "email CID length cap should be tighter than DID length cap"
    );
}

#[test]
fn max_owner_did_len_is_512() {
    assert_eq!(MAX_OWNER_DID_LEN, 512);
}

#[test]
fn max_email_cid_len_is_256() {
    assert_eq!(MAX_EMAIL_CID_LEN, 256);
}

#[test]
fn max_thread_id_len_matches_ingestor_limit() {
    assert_eq!(MAX_THREAD_ID_LEN, 256, "XRPC handler limit must match ingestor limit");
    let _ = MAX_THREAD_ID_LEN;
}

#[test]
fn max_email_bytes_is_25_mib() {
    assert_eq!(MAX_EMAIL_BYTES, 25 * 1024 * 1024, "EmailIngestor::MAX_EMAIL_BYTES must be 25 MiB");
}

#[test]
fn decoded_size_guard_catches_overshoot_between_b64_and_raw_limits() {
    let max_b64_decoded = (MAX_RAW_B64_LEN / 4) * 3;
    assert!(
        max_b64_decoded > MAX_EMAIL_BYTES,
        "b64 limit must allow payloads that would exceed the raw email limit \
         so the decoded-size guard is reachable"
    );
    assert!(check_decoded_size(max_b64_decoded).is_err());
}

#[test]
fn decoded_size_limit_message() {
    assert!(check_decoded_size(MAX_EMAIL_BYTES).is_ok());
    assert_eq!(
        check_decoded_size(MAX_EMAIL_BYTES + 1),
        Err((413, "decoded email exceeds 26214400 bytes".to_string()))
    );
}

#[test]
fn email_cid_length_checks() {
    assert_eq!(check_email_cid(""), Err((400, "email_cid must be 1–256 bytes".to_string())));
    assert!(check_email_cid("b").is_ok());
    assert!(check_email_cid(&"x".repeat(256)).is_ok());
    assert!(check_email_cid(&"x".repeat(257)).is_err());
}

#[test]
fn ingest_body_checks_in_order() {
    let body = |raw: &str, thread: Option<&str>| EmailIngestBody {
        raw_b64: raw.to_string(),
        thread_id: thread.map(|t| t.to_string()),
        owner_did: "did:key:z".to_string(),
    };
    assert_eq!(check_ingest_body(&body("", None)), Err((400, "raw_b64 must not be empty".to_string())));
    assert_eq!(
        check_ingest_body(&body(&"A".repeat(MAX_RAW_B64_LEN + 1), None)),
        Err((413, "raw_b64 exceeds 35651584 bytes".to_string()))
    );
    assert_eq!(
        check_ingest_body(&body("AAAA", Some(&"t".repeat(257)))),
        Err((400, "thread_id exceeds 256 bytes".to_string()))
    );
    assert!(check_ingest_body(&body("AAAA", Some("t1"))).is_ok());
}

fn text_quad(subject: &KotobaCid, pred: &str, text: &str) -> Quad {
    Quad {
        graph: KotobaCid::from_bytes(b"g"),
        subject: *subject,
        predicate: pred.to_string(),
        object: QuadObject::Text(text.to_string()),
    }
}

#[test]
fn text_from_quads_takes_first_text_match() {
    let e = KotobaCid::from_bytes(b"email-1");
    let other = KotobaCid::from_bytes(b"email-2");
    let quads = vec![
        Quad { graph: e, subject: e, predicate: "email/from".to_string(), object: QuadObject::Integer(3) },
        text_quad(&other, "email/from", "nobody"),
        text_quad(&e, "email/from", "alice@example.com"),
        text_quad(&e, "email/from", "second"),
    ];
    assert_eq!(text_from_quads(&quads, &e, "email/from"), "alice@example.com");
    assert_eq!(text_from_quads(&quads, &e, "email/to"), "");
}

#[test]
fn email_list_is_newest_first_and_paged() {
    let a = KotobaCid::from_bytes(b"a");
    let b = KotobaCid::from_bytes(b"b");
    let c = KotobaCid::from_bytes(b"c");
    let quads = vec![
        text_quad(&a, "email/date", "1700000001"),
        text_quad(&b, "email/date", "1700000003"),
        text_quad(&c, "email/date", "1700000002"),
        text_quad(&b, "email/message_id", "<b@x>"),
        text_quad(&a, "email/subject", "hi"),
    ];
    let page = email_list_page(&quads, None, None);
    assert_eq!(page.total, 3);
    assert_eq!(page.offset, 0);
    assert_eq!(page.limit, 50);
    let order: Vec<KotobaCid> = page.entries.iter().map(|e| e.0).collect();
    assert_eq!(order, vec![b, c, a]);
    assert_eq!(page.entries[0].2, "<b@x>");
    assert_eq!(page.entries[1].2, "");

    let page = email_list_page(&quads, Some(1), Some(1));
    assert_eq!(page.entries.len(), 1);
    assert_eq!(page.entries[0].0, c);

    let page = email_list_page(&quads, Some(5), Some(1000));
    assert_eq!(page.limit, 200);
    assert!(page.entries.is_empty());
}

#[test]
fn email_list_keeps_order_of_equal_dates() {
    let a = KotobaCid::from_bytes(b"a");
    let b = KotobaCid::from_bytes(b"b");
    let quads = vec![text_quad(&a, "email/date", "5"), text_quad(&b, "email/date", "5")];
    let page = email_list_page(&quads, None, None);
    assert_eq!(page.entries[0].0, a);
    assert_eq!(page.entries[1].0, b);
}

#[test]
fn lookup_email_errors() {
    let e = KotobaCid::from_bytes(b"email-1");
    assert_eq!(lookup_email(&[], "bxyz").unwrap_err().0, 404);
    let quads = vec![text_quad(&e, "email/date", "1")];
    assert_eq!(lookup_email(&quads, "not-a-cid").unwrap_err(), (400, "invalid email_cid multibase".to_string()));
    assert_eq!(
        lookup_email(&quads, &e.to_multibase()).unwrap_err(),
        (404, "email body_cid not found".to_string())
    );
    let quads = vec![text_quad(&e, "email/body_cid", "junk")];
    assert_eq!(lookup_email(&quads, &e.to_multibase()).unwrap_err().0, 500);
    let body = KotobaCid::from_bytes(b"body");
    let quads = vec![text_quad(&e, "email/body_cid", &body.to_multibase())];
    assert_eq!(lookup_email(&quads, &e.to_multibase()).unwrap(), (e, body));
}

#[test]
fn open_field_safe_empty_returns_empty() {
    assert!(!needs_open(""));
    assert_eq!(field_value("", None), "");
}

#[test]
fn open_field_safe_plaintext_returns_unchanged() {
    assert!(!needs_open("alice@example.com"));
    assert_eq!(field_value("alice@example.com", None), "alice@example.com");
}

#[test]
fn open_field_safe_non_signal_prefix_with_colon_passthrough() {
    assert!(!needs_open("mailto:user@example.com"));
    assert_eq!(field_value("mailto:user@example.com", None), "mailto:user@example.com");
}

#[test]
fn open_field_safe_bad_ciphertext_returns_original() {
    let envelope = "signal:v1:not-valid-ciphertext";
    assert!(needs_open(envelope));
    assert_eq!(field_value(envelope, Some(Err("bad".to_string()))), envelope);
}

#[test]
fn opened_field_shows_plaintext() {
    assert_eq!(field_value("signal:v1:abc", Some(Ok("test@example.com".to_string()))), "test@example.com");
}

#[test]
fn ingest_tx_cid_names_owner_and_email() {
    let email = KotobaCid::from_bytes(b"email");
    let expected = format!("email.ingest:did:key:zA:{}", email.to_multibase());
    assert_eq!(ingest_tx_cid("did:key:zA", &email), KotobaCid::from_bytes(expected.as_bytes()));
}

#[test]
fn bearer_token_is_read() {
    assert_eq!(bearer_token(Some("Bearer abc")).unwrap(), "abc");
    assert_eq!(bearer_token(Some("Basic abc")).unwrap_err().0, 401);
    assert_eq!(bearer_token(None).unwrap_err().1, "Authorization: Bearer <token> required");
}

#[test]
fn email_authorization_decisions() {
    assert_eq!(authorize_email(true, Some("did:a"), "did:a", "did:op").unwrap_err().1, "Bearer token has expired");
    assert_eq!(authorize_email(false, None, "did:a", "did:op").unwrap_err().1, "Bearer token missing sub claim");
    assert!(authorize_email(false, Some("did:a"), "did:a", "did:op").is_ok());
    assert!(authorize_email(false, Some("did:op"), "did:a", "did:op").is_ok());
    assert_eq!(
        authorize_email(false, Some("did:x"), "did:a", "did:op").unwrap_err().1,
        "Bearer sub does not match owner_did \"did:a\""
    );
}

#[test]
fn email_checks_run_in_order() {
    let owner_bad: Result<(), (u16, String)> = Err((400, "owner_did bad".to_string()));
    let auth_bad: Result<(), (u16, String)> = Err((401, "no auth".to_string()));
    assert_eq!(email_read_checks(owner_bad.clone(), "", auth_bad.clone()), owner_bad);
    assert_eq!(email_read_checks(Ok(()), "", auth_bad.clone()).unwrap_err().0, 400);
    assert_eq!(email_read_checks(Ok(()), "bafy", auth_bad.clone()), auth_bad);
    assert_eq!(email_read_checks(Ok(()), "bafy", Ok(())), Ok(()));
    let empty = EmailIngestBody { raw_b64: String::new(), thread_id: None, owner_did: "did:o".to_string() };
    assert_eq!(email_ingest_checks(Ok(()), &empty, auth_bad.clone()).unwrap_err().1, "raw_b64 must not be empty");
    let body = EmailIngestBody { raw_b64: "AAAA".to_string(), thread_id: None, owner_did: "did:o".to_string() };
    assert_eq!(email_ingest_checks(Ok(()), &body, auth_bad.clone()), auth_bad);
    assert_eq!(email_ingest_checks(owner_bad.clone(), &empty, Ok(())), owner_bad);
    assert_eq!(email_list_checks(Ok(()), auth_bad.clone()), auth_bad);
}
