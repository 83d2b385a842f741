use sha3::Digest;
use base64::Engine;
use ed25519_dalek::{Signer, SigningKey};
use kotoba::server::{check_private_access, AccessDenied};
use kotoba::cacao::{
    decode_sig_bytes, default_version, parse_ed25519_did_key, Cacao, CacaoError, CacaoHeader,
    CacaoPayload, CacaoSig,
};

fn did_key(sk: &SigningKey) -> String {
    let mut bytes = vec![0xed, 0x01];
    bytes.extend_from_slice(sk.verifying_key().as_bytes());
    format!("did:key:{}", multibase::encode(multibase::Base::Base58Btc, bytes))
}

fn signed(sk: &SigningKey, iss: &str, encode: impl Fn(&[u8]) -> String) -> Cacao {
    let p = CacaoPayload {
        iss: iss.to_string(),
        aud: "did:web:node".to_string(),
        issued_at: "2024-01-01T00:00:00Z".to_string(),
        expiry: None,
        nonce: "abc".to_string(),
        domain: "kotoba.example.com".to_string(),
        statement: None,
        version: default_version(),
        resources: vec!["kotoba://can/quad:read".to_string()],
    };
    let mut c = Cacao {
        h: CacaoHeader { t: "caip122".to_string() },
        p,
        s: CacaoSig { t: "EdDSA".to_string(), s: String::new() },
    };
    let sig = sk.sign(c.siwe_message().as_bytes());
    c.s.s = encode(&sig.to_bytes());
    c
}

fn b64url(b: &[u8]) -> String {
    base64::engine::general_purpose::URL_SAFE_NO_PAD.encode(b)
}

#[test]
fn eddsa_signature_verifies_to_issuer() {
    let sk = SigningKey::from_bytes(&[7u8; 32]);
    let did = did_key(&sk);
    let c = signed(&sk, &did, b64url);
    assert_eq!(c.verify_signature().unwrap(), did);
}

#[test]
fn eddsa_hex_signature_with_prefix_verifies() {
    let sk = SigningKey::from_bytes(&[8u8; 32]);
    let did = did_key(&sk);
    let c = signed(&sk, &did, |b| format!("0x{}", hex::encode(b)));
    assert_eq!(c.verify_signature().unwrap(), did);
}

#[test]
fn eddsa_signature_by_other_key_is_refused() {
    let sk = SigningKey::from_bytes(&[7u8; 32]);
    let other = SigningKey::from_bytes(&[9u8; 32]);
    let c = signed(&other, &did_key(&sk), b64url);
    assert!(matches!(c.verify_signature(), Err(CacaoError::Ed25519(_))));
}

#[test]
fn short_signature_is_refused() {
    let sk = SigningKey::from_bytes(&[7u8; 32]);
    let mut c = signed(&sk, &did_key(&sk), b64url);
    c.s.s = b64url(&[1, 2, 3]);
    match c.verify_signature() {
        Err(CacaoError::Ed25519(m)) => assert_eq!(m, "expected 64-byte signature, got 3"),
        other => panic!("unexpected {other:?}"),
    }
}

#[test]
fn issuer_must_be_did_key() {
    let sk = SigningKey::from_bytes(&[7u8; 32]);
    let c = signed(&sk, "did:pkh:eip155:1:0xabc", b64url);
    assert!(matches!(c.verify_signature(), Err(CacaoError::DidKeyParse(_))));
    assert_eq!(parse_ed25519_did_key("did:web:x").unwrap_err(), "not a did:key");
    assert_eq!(parse_ed25519_did_key(&did_key(&sk)).unwrap(), *sk.verifying_key().as_bytes());
}

#[test]
fn signature_types() {
    let sk = SigningKey::from_bytes(&[7u8; 32]);
    let mut c = signed(&sk, &did_key(&sk), b64url);
    c.s.t = "rsa".to_string();
    match c.verify_signature() {
        Err(e @ CacaoError::UnsupportedSigType(_)) => assert_eq!(e.message(), "unsupported sig type: rsa"),
        other => panic!("unexpected {other:?}"),
    }
    c.s.t = "eip191".to_string();
    assert!(matches!(c.verify_signature(), Err(CacaoError::EthSig(_))));
}

#[test]
fn signature_text_falls_back_to_hex() {
    assert_eq!(decode_sig_bytes("AQID").unwrap(), vec![1, 2, 3]);
    assert_eq!(decode_sig_bytes("0x0x0a0b0c").unwrap(), vec![10, 11, 12]);
    assert!(matches!(decode_sig_bytes("zz!"), Err(CacaoError::Hex(_))));
}

#[test]
fn private_access_with_signed_cacao() {
    let sk = SigningKey::from_bytes(&[7u8; 32]);
    let did = did_key(&sk);
    assert!(check_private_access(&did, Ok(signed(&sk, &did, b64url))).is_ok());
    let other = SigningKey::from_bytes(&[9u8; 32]);
    let other_did = did_key(&other);
    match check_private_access(&did, Ok(signed(&other, &other_did, b64url))) {
        Err(AccessDenied::IssuerMismatch { expected, got }) => {
            assert_eq!(expected, did);
            assert_eq!(got, other_did);
        }
        other => panic!("unexpected {other:?}"),
    }
    // Signed by another key than the issuer's.
    match check_private_access(&did, Ok(signed(&other, &did, b64url))) {
        Err(AccessDenied::DelegationError(m)) => assert!(m.starts_with("invalid signature: ed25519"), "{m}"),
        other => panic!("unexpected {other:?}"),
    }
}

fn keccak(data: &[u8]) -> Vec<u8> {
    sha3::Keccak256::digest(data).to_vec()
}

fn eth_signed(sk: &k256::ecdsa::SigningKey, iss: &str) -> Cacao {
    let p = CacaoPayload {
        iss: iss.to_string(),
        aud: "did:web:node".to_string(),
        issued_at: "2024-01-01T00:00:00Z".to_string(),
        expiry: None,
        nonce: "abc".to_string(),
        domain: "kotoba.example.com".to_string(),
        statement: None,
        version: default_version(),
        resources: vec!["kotoba://can/quad:read".to_string()],
    };
    let mut c = Cacao {
        h: CacaoHeader { t: "eip4361".to_string() },
        p,
        s: CacaoSig { t: "eip191".to_string(), s: String::new() },
    };
    let msg = c.siwe_message();
    let mut prefixed = format!("\x19Ethereum Signed Message:\n{}", msg.len()).into_bytes();
    prefixed.extend_from_slice(msg.as_bytes());
    let hash = keccak(&prefixed);
    let (sig, recid) = sk.sign_prehash_recoverable(&hash).unwrap();
    let mut bytes = sig.to_bytes().to_vec();
    bytes.push(27 + recid.to_byte());
    c.s.s = format!("0x{}", hex::encode(bytes));
    c
}

fn eth_address(sk: &k256::ecdsa::SigningKey) -> String {
    let point = sk.verifying_key().to_encoded_point(false);
    hex::encode(&keccak(&point.as_bytes()[1..])[12..])
}

#[test]
fn eip191_signature_recovers_issuer_address() {
    let sk = k256::ecdsa::SigningKey::from_slice(&[3u8; 32]).unwrap();
    let addr = eth_address(&sk);
    let c = eth_signed(&sk, &format!("did:pkh:eip155:1:0x{addr}"));
    assert_eq!(c.verify_signature().unwrap(), format!("did:erc725:gftd:260425:0x{addr}"));
}

#[test]
fn eip191_signature_by_other_address_is_a_mismatch() {
    let sk = k256::ecdsa::SigningKey::from_slice(&[3u8; 32]).unwrap();
    let other = k256::ecdsa::SigningKey::from_slice(&[4u8; 32]).unwrap();
    let claimed = eth_address(&other);
    let c = eth_signed(&sk, &format!("did:erc725:gftd:260425:0x{claimed}"));
    match c.verify_signature() {
        Err(CacaoError::AddressMismatch { expected, got }) => {
            assert_eq!(expected, claimed);
            assert_eq!(got, eth_address(&sk));
        }
        other => panic!("unexpected {other:?}"),
    }
}

#[test]
fn eip191_bad_inputs() {
    let sk = k256::ecdsa::SigningKey::from_slice(&[3u8; 32]).unwrap();
    let addr = eth_address(&sk);
    let mut c = eth_signed(&sk, &format!("did:pkh:eip155:1:0x{addr}"));
    c.s.s = "0xzz".to_string();
    assert!(matches!(c.verify_signature(), Err(CacaoError::Hex(_))));
    c.s.s = "0x0102".to_string();
    match c.verify_signature() {
        Err(CacaoError::EthSig(m)) => assert_eq!(m, "invalid signature length: 2"),
        other => panic!("unexpected {other:?}"),
    }
    c.p.iss = "did:pkh:eip155:1:0x12".to_string();
    match c.verify_signature() {
        Err(CacaoError::EthSig(m)) => assert_eq!(m, "invalid Ethereum address"),
        other => panic!("unexpected {other:?}"),
    }
}
