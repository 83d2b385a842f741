//! CACAO (chain-agnostic capability object, CAIP-74): the signed
//! sign-in-with-Ethereum message, and the Kotoba capabilities it carries as
//! resource URIs; and the delegation chain built from such objects.
use vstd::prelude::*;
use vstd::utf8::encode_utf8;
use ed25519_dalek::Verifier;
use sha3::Digest;
use crate::codec::{
    b64url_decode_text, b64url_encode, hex_bytes, hex_decode_text, hex_decoded, hex_encode, hex_text,
    multibase_decode_text, multibase_decoded,
};
use crate::quad::same_bytes;
use crate::text::{
    chars_of, decimal, has_prefix, join_line_chars, join_lines, push_chars, push_decimal,
    push_str_chars, split_chars, split_on, starts_with_chars, string_from_chars, sub_chars,
};

verus! {

/// Why a CACAO could not be read or verified.
#[derive(Debug)]
pub enum CacaoError {
    ParseError(String),
    UnsupportedSigType(String),
    EthSig(String),
    Hex(String),
    AddressMismatch { expected: String, got: String },
    DidKeyParse(String),
    Ed25519(String),
}

/// A CACAO: header, payload and signature.
#[derive(Debug)]
pub struct Cacao {
    pub h: CacaoHeader,
    pub p: CacaoPayload,
    pub s: CacaoSig,
}

/// Message format: `eip4361` or `caip122`.
#[derive(Debug)]
pub struct CacaoHeader {
    pub t: String,
}

/// What the signer signed.
#[derive(Debug)]
pub struct CacaoPayload {
    /// Issuer DID.
    pub iss: String,
    /// Audience: this node's DID or URI.
    pub aud: String,
    pub issued_at: String,
    pub expiry: Option<String>,
    pub nonce: String,
    /// Requesting domain.
    pub domain: String,
    pub statement: Option<String>,
    /// Message version.
    pub version: String,
    /// Capability resources as URIs.
    pub resources: Vec<String>,
}

/// Signature: type (`eip191` or `EdDSA`) and encoded bytes.
#[derive(Debug)]
pub struct CacaoSig {
    pub t: String,
    pub s: String,
}

/// The message version assumed when none is given: `"1"`.
pub fn default_version() -> (v: String)
    ensures
        v@ == "1"@,
{
    String::from_str("1")
}

/// The models of a list of strings.
pub open spec fn strings_view(v: Seq<String>) -> Seq<Seq<char>> {
    v.map_values(|x: String| x@)
}

/// The address a DID names: its last `:`-separated segment.
pub open spec fn did_address(iss: Seq<char>) -> Seq<char> {
    split_on(iss, ':').last()
}

/// The chain id a DID names: its second-to-last `:`-separated segment, or
/// `"1"` when it has a single segment.
pub open spec fn did_chain_id(iss: Seq<char>) -> Seq<char> {
    let segs = split_on(iss, ':');
    if segs.len() >= 2 {
        segs[segs.len() - 2]
    } else {
        "1"@
    }
}

/// `- <uri>` for each resource.
pub open spec fn resource_lines(rs: Seq<Seq<char>>) -> Seq<Seq<char>> {
    rs.map_values(|r: Seq<char>| "- "@ + r)
}

/// The lines of the EIP-4361 message of a payload.
pub open spec fn siwe_lines(p: CacaoPayload) -> Seq<Seq<char>> {
    let head = seq![
        p.domain@ + " wants you to sign in with your Ethereum account:"@,
        did_address(p.iss@),
        Seq::<char>::empty(),
    ];
    let with_stmt = match p.statement {
        Some(st) => head.push(st@).push(Seq::empty()),
        None => head,
    };
    let body = with_stmt + seq![
        "URI: "@ + p.aud@,
        "Version: "@ + p.version@,
        "Chain ID: "@ + did_chain_id(p.iss@),
        "Nonce: "@ + p.nonce@,
        "Issued At: "@ + p.issued_at@,
    ];
    let with_exp = match p.expiry {
        Some(e) => body.push("Expiration Time: "@ + e@),
        None => body,
    };
    if p.resources@.len() == 0 {
        with_exp
    } else {
        with_exp.push("Resources:"@) + resource_lines(strings_view(p.resources@))
    }
}

proof fn lemma_join_split(ls: Seq<Seq<char>>, k: int)
    requires
        1 <= k < ls.len(),
    ensures
        join_lines(ls) == join_lines(ls.take(k)) + seq!['\n'] + join_lines(ls.skip(k)),
    decreases ls.len(),
{
    let d = ls.drop_last();
    if k == ls.len() - 1 {
        assert(ls.take(k) =~= d);
        assert(ls.skip(k) =~= seq![ls.last()]);
    } else {
        lemma_join_split(d, k);
        assert(d.take(k) =~= ls.take(k));
        let t = ls.skip(k);
        assert(t.len() >= 2);
        assert(t.drop_last() =~= d.skip(k));
        assert(t.last() == ls.last());
        assert(join_lines(t) == join_lines(t.drop_last()) + seq!['\n'] + t.last());
    }
}

proof fn lemma_join_four(a: Seq<char>, b: Seq<char>, c: Seq<char>, d: Seq<char>)
    ensures
        join_lines(seq![a, b, c, d]) == a + seq!['\n'] + b + seq!['\n'] + c + seq!['\n'] + d,
{
    let nl = seq!['\n'];
    let l = seq![a, b, c, d];
    assert(seq![a, b].drop_last() =~= seq![a]);
    assert(join_lines(seq![a]) == a);
    assert(join_lines(seq![a, b]) == a + nl + b);
    assert(seq![a, b, c].drop_last() =~= seq![a, b]);
    assert(join_lines(seq![a, b, c]) == a + nl + b + nl + c);
    assert(l.drop_last() =~= seq![a, b, c]);
    assert(join_lines(l) == a + nl + b + nl + c + nl + d);
}

/// The head of the EIP-4361 message a wallet signs: the domain's request
/// line, the account address on the next line, then a blank line; then the
/// statement and another blank line when there is one; then the `URI:` line
/// naming the audience.
pub open spec fn siwe_head(p: CacaoPayload) -> Seq<char> {
    let nl = seq!['\n'];
    let intro = p.domain@ + " wants you to sign in with your Ethereum account:"@ + nl + did_address(p.iss@)
        + nl + nl;
    match p.statement {
        Some(st) => intro + st@ + nl + nl + "URI: "@ + p.aud@,
        None => intro + "URI: "@ + p.aud@,
    }
}

/// Every signed message starts with its head: request line, address, a
/// blank line, the statement (if any) followed by a blank line, and the
/// audience's `URI:` line, which is followed by the rest of the message.
pub proof fn lemma_siwe_message_head(p: CacaoPayload)
    ensures
        has_prefix(join_lines(siwe_lines(p)), siwe_head(p) + seq!['\n']),
        siwe_lines(p).len() >= 8,
        siwe_lines(p)[0] == p.domain@ + " wants you to sign in with your Ethereum account:"@,
        siwe_lines(p)[1] == did_address(p.iss@),
        siwe_lines(p)[2] == Seq::<char>::empty(),
        p.statement is None ==> siwe_lines(p)[3] == "URI: "@ + p.aud@,
        p.statement is Some ==> siwe_lines(p)[3] == p.statement->0@ && siwe_lines(p)[4]
            == Seq::<char>::empty() && siwe_lines(p)[5] == "URI: "@ + p.aud@,
{
    let ls = siwe_lines(p);
    let l0 = p.domain@ + " wants you to sign in with your Ethereum account:"@;
    let a = did_address(p.iss@);
    let e = Seq::<char>::empty();
    let uri = "URI: "@ + p.aud@;
    let nl = seq!['\n'];
    match p.statement {
        Some(st) => {
            assert(ls.len() > 6);
            assert(ls.take(6) =~= seq![l0, a, e, st@, e, uri]);
            lemma_join_split(ls, 6);
            let six = seq![l0, a, e, st@, e, uri];
            lemma_join_split(six, 4);
            assert(six.take(4) =~= seq![l0, a, e, st@]);
            assert(six.skip(4) =~= seq![e, uri]);
            lemma_join_four(l0, a, e, st@);
            let two = seq![e, uri];
            assert(two.drop_last() =~= seq![e]);
            assert(join_lines(seq![e]) == e);
            assert(two.last() == uri);
            assert(join_lines(two) == e + nl + uri);
            assert(join_lines(six) == join_lines(seq![l0, a, e, st@]) + nl + join_lines(two));
            assert(join_lines(six) =~= l0 + nl + a + nl + e + nl + st@ + nl + (e + nl + uri));
            assert(join_lines(six) =~= siwe_head(p));
            assert((siwe_head(p) + nl) =~= join_lines(ls).take((siwe_head(p) + nl).len() as int));
        },
        None => {
            assert(ls.len() > 4);
            assert(ls.take(4) =~= seq![l0, a, e, uri]);
            lemma_join_split(ls, 4);
            lemma_join_four(l0, a, e, uri);
            assert(join_lines(ls.take(4)) =~= siwe_head(p));
            assert((siwe_head(p) + nl) =~= join_lines(ls).take((siwe_head(p) + nl).len() as int));
        },
    }
}

fn line_of(a: &str, b: &str) -> (l: Vec<char>)
    ensures
        l@ == a@ + b@,
{
    let mut l: Vec<char> = Vec::new();
    push_str_chars(&mut l, a);
    push_str_chars(&mut l, b);
    l
}

fn line_of_chars(a: &str, b: &Vec<char>) -> (l: Vec<char>)
    ensures
        l@ == a@ + b@,
{
    let mut l: Vec<char> = Vec::new();
    push_str_chars(&mut l, a);
    push_chars(&mut l, b);
    l
}

/// The model of a list of lines.
pub open spec fn lines_view(ls: Seq<Vec<char>>) -> Seq<Seq<char>> {
    ls.map_values(|l: Vec<char>| l@)
}

impl Cacao {
    /// The EIP-4361 plaintext that was signed: the lines of the payload
    /// joined by newlines.
    pub fn siwe_message(&self) -> (m: String)
        ensures
            m@ == join_lines(siwe_lines(self.p)),
    {
        let p = &self.p;
        let iss = chars_of(p.iss.as_str());
        let segs = split_chars(&iss, ':');
        let address = &segs[segs.len() - 1];
        let one = chars_of("1");
        let chain_id: &Vec<char> = if segs.len() >= 2 { &segs[segs.len() - 2] } else { &one };
        assert(address@ == did_address(p.iss@));
        assert(chain_id@ == did_chain_id(p.iss@));
        let mut lines: Vec<Vec<char>> = Vec::new();
        let mut first: Vec<char> = Vec::new();
        push_str_chars(&mut first, p.domain.as_str());
        push_str_chars(&mut first, " wants you to sign in with your Ethereum account:");
        lines.push(first);
        lines.push(address.clone());
        lines.push(Vec::new());
        match &p.statement {
            Some(stmt) => {
                lines.push(chars_of(stmt.as_str()));
                lines.push(Vec::new());
            },
            None => {},
        }
        lines.push(line_of("URI: ", p.aud.as_str()));
        lines.push(line_of("Version: ", p.version.as_str()));
        lines.push(line_of_chars("Chain ID: ", chain_id));
        lines.push(line_of("Nonce: ", p.nonce.as_str()));
        lines.push(line_of("Issued At: ", p.issued_at.as_str()));
        match &p.expiry {
            Some(e) => {
                lines.push(line_of("Expiration Time: ", e.as_str()));
            },
            None => {},
        }
        let ghost fixed = lines_view(lines@);
        if p.resources.len() > 0 {
            lines.push(chars_of("Resources:"));
            let ghost base = lines_view(lines@);
            for i in 0..p.resources.len()
                invariant
                    lines@.len() == base.len() + i,
                    lines_view(lines@) == base + resource_lines(strings_view(p.resources@)).take(i as int),
            {
                let ghost before = lines_view(lines@);
                lines.push(line_of("- ", p.resources[i].as_str()));
                assert(lines_view(lines@) =~= before.push("- "@ + p.resources@[i as int]@));
                assert(lines_view(lines@) =~= base + resource_lines(strings_view(p.resources@)).take(i + 1));
            }
            assert(resource_lines(strings_view(p.resources@)).take(p.resources@.len() as int)
                =~= resource_lines(strings_view(p.resources@)));
        }
        assert(lines_view(lines@) =~= siwe_lines(self.p));
        let text = join_line_chars(&lines);
        string_from_chars(&text)
    }
}

/// The index of the first resource starting with `prefix`, if any.
pub open spec fn first_with_prefix(rs: Seq<Seq<char>>, prefix: Seq<char>) -> Option<int> {
    if exists|i: int| 0 <= i < rs.len() && has_prefix(#[trigger] rs[i], prefix) {
        Some(choose|i: int| 0 <= i < rs.len() && has_prefix(#[trigger] rs[i], prefix)
            && forall|j: int| 0 <= j < i ==> !has_prefix(#[trigger] rs[j], prefix))
    } else {
        None
    }
}

/// What follows `prefix` in the first resource that starts with it.
pub open spec fn resource_after(rs: Seq<Seq<char>>, prefix: Seq<char>) -> Option<Seq<char>> {
    match first_with_prefix(rs, prefix) {
        Some(i) => Some(rs[i].skip(prefix.len() as int)),
        None => None,
    }
}

fn find_resource<'a>(resources: &'a Vec<String>, prefix: &str) -> (r: Option<&'a str>)
    ensures
        match resource_after(strings_view(resources@), prefix@) {
            Some(x) => r matches Some(y) && y@ == x,
            None => r is None,
        },
{
    let ghost rs = strings_view(resources@);
    let pc = chars_of(prefix);
    for i in 0..resources.len()
        invariant
            rs == strings_view(resources@),
            pc@ == prefix@,
            forall|j: int| 0 <= j < i ==> !has_prefix(#[trigger] rs[j], prefix@),
    {
        let r = resources[i].as_str();
        let rc = chars_of(r);
        if starts_with_chars(&rc, &pc) {
            proof {
                assert(has_prefix(rs[i as int], prefix@));
                let k = choose|k: int| 0 <= k < rs.len() && has_prefix(#[trigger] rs[k], prefix@)
                    && forall|j: int| 0 <= j < k ==> !has_prefix(#[trigger] rs[j], prefix@);
                if k < i {
                } else if k > i {
                    assert(!has_prefix(rs[i as int], prefix@));
                }
                assert(k == i);
            }
            let n = r.unicode_len();
            let rest = r.substring_char(pc.len(), n);
            assert(rest@ =~= rs[i as int].skip(prefix@.len() as int));
            return Some(rest);
        }
    }
    None
}

impl CacaoPayload {
    /// The graph named by the first `kotoba://graph/` resource.
    pub fn graph_cid(&self) -> (r: Option<&str>)
        ensures
            match resource_after(strings_view(self.resources@), "kotoba://graph/"@) {
                Some(x) => r matches Some(y) && y@ == x,
                None => r is None,
            },
    {
        find_resource(&self.resources, "kotoba://graph/")
    }

    /// The ability named by the first `kotoba://can/` resource.
    pub fn capability(&self) -> (r: Option<&str>)
        ensures
            match resource_after(strings_view(self.resources@), "kotoba://can/"@) {
                Some(x) => r matches Some(y) && y@ == x,
                None => r is None,
            },
    {
        find_resource(&self.resources, "kotoba://can/")
    }

    /// The proof named by the first `kotoba://prf/` resource.
    pub fn proof_cid(&self) -> (r: Option<&str>)
        ensures
            match resource_after(strings_view(self.resources@), "kotoba://prf/"@) {
                Some(x) => r matches Some(y) && y@ == x,
                None => r is None,
            },
    {
        find_resource(&self.resources, "kotoba://prf/")
    }
}

/// Why a delegation chain was refused.
#[derive(Debug)]
pub enum DelegationError {
    EmptyChain,
    InvalidSignature(String),
    CapabilityDenied(String),
    Expired,
    RootMismatch,
}

/// A capability delegation: invocation first, then the CACAOs it rests on.
#[derive(Debug)]
pub struct DelegationChain {
    pub chain: Vec<Cacao>,
}

impl DelegationChain {
    /// A chain holding only the invocation.
    pub fn new(invocation: Cacao) -> (c: DelegationChain)
        ensures
            c.chain@ == seq![invocation],
    {
        DelegationChain { chain: vec![invocation] }
    }

    /// Checks the chain for a graph and capability; only an empty chain is
    /// refused.
    pub fn verify(&self, graph_cid: &str, required_cap: &str) -> (r: Result<(), DelegationError>)
        ensures
            self.chain@.len() == 0 <==> r matches Err(DelegationError::EmptyChain),
            self.chain@.len() > 0 <==> r is Ok,
    {
        if self.chain.len() == 0 {
            return Err(DelegationError::EmptyChain);
        }
        Ok(())
    }
}

/// The text without every leading `0x` (`trim_start_matches("0x")`).
pub open spec fn strip_0x(s: Seq<char>) -> Seq<char>
    decreases s.len(),
{
    if s.len() >= 2 && s[0] == '0' && s[1] == 'x' {
        strip_0x(s.skip(2))
    } else {
        s
    }
}

fn strip_0x_chars(s: &Vec<char>) -> (r: Vec<char>)
    ensures
        r@ == strip_0x(s@),
{
    let mut i: usize = 0;
    assert(s@.skip(0) =~= s@);
    while s.len() - i >= 2 && s[i] == '0' && s[i + 1] == 'x'
        invariant
            i <= s@.len(),
            strip_0x(s@) == strip_0x(s@.skip(i as int)),
        decreases s@.len() - i,
    {
        assert(s@.skip(i as int).skip(2) =~= s@.skip(i + 2));
        i += 2;
    }
    assert(s@.subrange(i as int, s@.len() as int) =~= s@.skip(i as int));
    sub_chars(s, i, s.len())
}

/// Whether a signature text is unpadded URL-safe base64.
pub open spec fn is_b64url(s: Seq<char>) -> bool {
    exists|b: Seq<u8>| b64url_encode(b) == s
}

/// Signature text `s` denotes bytes `b`: its base64 bytes when it is
/// URL-safe base64, else its hexadecimal bytes after any `0x`.
pub open spec fn sig_text_denotes(s: Seq<char>, b: Seq<u8>) -> bool {
    if is_b64url(s) {
        b64url_encode(b) == s
    } else {
        hex_decoded(strip_0x(s)) == Ok::<Seq<u8>, Seq<char>>(b)
    }
}

/// The hexadecimal error of a signature text that is neither base64 nor hex.
pub open spec fn sig_text_error(s: Seq<char>) -> Option<Seq<char>> {
    if is_b64url(s) {
        None
    } else {
        match hex_decoded(strip_0x(s)) {
            Ok(_) => None,
            Err(e) => Some(e),
        }
    }
}

/// Decodes a signature text: URL-safe base64 first, then hexadecimal.
pub fn decode_sig_bytes(s: &str) -> (r: Result<Vec<u8>, CacaoError>)
    ensures
        match r {
            Ok(v) => sig_text_denotes(s@, v@),
            Err(e) => sig_text_error(s@) matches Some(m) && e matches CacaoError::Hex(x) && x@ == m,
        },
        sig_text_error(s@) is None ==> r is Ok,
{
    match b64url_decode_text(s) {
        Some(bytes) => {
            return Ok(bytes);
        },
        None => {},
    }
    let cs = chars_of(s);
    let hex = string_from_chars(&strip_0x_chars(&cs));
    match hex_decode_text(hex.as_str()) {
        Ok(v) => Ok(v),
        Err(e) => Err(CacaoError::Hex(e)),
    }
}

/// The Ed25519 public key a `did:key` names: the DID is `did:key:` and a
/// base58btc (`z`) multibase text of the two-byte Ed25519 multicodec prefix
/// `0xed 0x01` followed by the 32 key bytes.
pub open spec fn did_key_bytes(did: Seq<char>) -> Result<Seq<u8>, Seq<char>> {
    if !has_prefix(did, "did:key:"@) {
        Err("not a did:key"@)
    } else {
        match multibase_decoded(did.skip(8)) {
            None => Err("invalid multibase"@),
            Some((c, b)) => if c != 'z' {
                Err("did:key is not base58btc"@)
            } else if b.len() != 34 || b[0] != 0xed || b[1] != 0x01 {
                Err("not an ed25519 did:key"@)
            } else {
                Ok(b.skip(2))
            },
        }
    }
}

/// Reads the Ed25519 public key of a `did:key`.
pub fn parse_ed25519_did_key(did: &str) -> (r: Result<[u8; 32], String>)
    ensures
        match did_key_bytes(did@) {
            Ok(k) => r matches Ok(a) && a@ == k,
            Err(e) => r matches Err(m) && m@ == e,
        },
{
    let cs = chars_of(did);
    let prefix = chars_of("did:key:");
    proof {
        reveal_strlit("did:key:");
    }
    if !starts_with_chars(&cs, &prefix) {
        return Err(String::from_str("not a did:key"));
    }
    let rest = string_from_chars(&sub_chars(&cs, 8, cs.len()));
    assert(rest@ =~= did@.skip(8));
    let (code, bytes) = match multibase_decode_text(rest.as_str()) {
        Some(d) => d,
        None => {
            return Err(String::from_str("invalid multibase"));
        },
    };
    if code != 'z' {
        return Err(String::from_str("did:key is not base58btc"));
    }
    if bytes.len() != 34 || bytes[0] != 0xed || bytes[1] != 0x01 {
        return Err(String::from_str("not an ed25519 did:key"));
    }
    let mut key = [0u8; 32];
    let mut i: usize = 0;
    while i < 32
        invariant
            i <= 32,
            bytes@.len() == 34,
            key@.len() == 32,
            forall|j: int| 0 <= j < i ==> key@[j] == bytes@[j + 2],
        decreases 32 - i,
    {
        key[i] = bytes[i + 2];
        i += 1;
    }
    assert(key@ =~= bytes@.skip(2));
    Ok(key)
}

/// What Ed25519 verification of `sig` over `msg` under public key `pk`
/// answers: success, or the text of the key or signature error.
pub uninterp spec fn ed25519_checked(pk: Seq<u8>, msg: Seq<u8>, sig: Seq<u8>) -> Result<(), Seq<char>>;

/// Verifies an Ed25519 signature (`VerifyingKey::from_bytes`, then
/// `Verifier::verify` with `Signature::from_bytes`).
#[verifier::external_body]
fn ed25519_verify(pk: &[u8; 32], msg: &[u8], sig: &[u8; 64]) -> (r: Result<(), String>)
    ensures
        match r {
            Ok(_) => ed25519_checked(pk@, msg@, sig@) == Ok::<(), Seq<char>>(()),
            Err(e) => ed25519_checked(pk@, msg@, sig@) == Err::<(), Seq<char>>(e@),
        },
{
    let key = ed25519_dalek::VerifyingKey::from_bytes(pk).map_err(|e| e.to_string())?;
    key.verify(msg, &ed25519_dalek::Signature::from_bytes(sig)).map_err(|e| e.to_string())
}

/// Why 32 bytes are not an Ed25519 public key, if they are not.
pub uninterp spec fn ed25519_key_checked(pk: Seq<u8>) -> Option<Seq<char>>;

/// Reads 32 bytes as an Ed25519 public key (`VerifyingKey::from_bytes`) and
/// hands back the error's text, if any.
#[verifier::external_body]
fn ed25519_key_error(pk: &[u8; 32]) -> (r: Option<String>)
    ensures
        match r {
            Some(e) => ed25519_key_checked(pk@) == Some(e@),
            None => ed25519_key_checked(pk@) is None,
        },
{
    ed25519_dalek::VerifyingKey::from_bytes(pk).err().map(|e| e.to_string())
}

/// What an `EdDSA` CACAO verifies to, for signature bytes `sig`.
pub open spec fn eddsa_outcome(c: Cacao, pk: Seq<u8>, sig: Seq<u8>) -> Result<Seq<char>, (u8, Seq<char>)> {
    if sig.len() != 64 {
        Err((6u8, "expected 64-byte signature, got "@ + decimal(sig.len())))
    } else {
        match ed25519_checked(pk, encode_utf8(join_lines(siwe_lines(c.p))), sig) {
            Ok(_) => Ok(c.p.iss@),
            Err(e) => Err((6u8, e)),
        }
    }
}

/// The kind number and message of an error (`DidKeyParse` is 5,
/// `Ed25519` is 6, `Hex` is 3).
pub open spec fn error_parts(e: CacaoError) -> (u8, Seq<char>) {
    match e {
        CacaoError::ParseError(m) => (0u8, m@),
        CacaoError::UnsupportedSigType(m) => (1u8, m@),
        CacaoError::EthSig(m) => (2u8, m@),
        CacaoError::Hex(m) => (3u8, m@),
        CacaoError::AddressMismatch { expected, .. } => (4u8, expected@),
        CacaoError::DidKeyParse(m) => (5u8, m@),
        CacaoError::Ed25519(m) => (6u8, m@),
    }
}

fn copy_64(v: &Vec<u8>) -> (a: [u8; 64])
    requires
        v@.len() == 64,
    ensures
        a@ == v@,
{
    let mut a = [0u8; 64];
    let mut i: usize = 0;
    while i < 64
        invariant
            i <= 64,
            v@.len() == 64,
            a@.len() == 64,
            forall|j: int| 0 <= j < i ==> a@[j] == v@[j],
        decreases 64 - i,
    {
        a[i] = v[i];
        i += 1;
    }
    assert(a@ =~= v@);
    a
}

fn same_str(a: &str, b: &str) -> (r: bool)
    ensures
        r == (a@ == b@),
{
    let x = chars_of(a);
    let y = chars_of(b);
    if x.len() != y.len() {
        return false;
    }
    let r = starts_with_chars(&x, &y);
    assert(x@.take(y@.len() as int) =~= x@);
    r
}

/// What verifying an `EdDSA` CACAO gives: a bad `did:key` issuer, a key that
/// is not an Ed25519 public key, or a bad signature text is refused with its
/// error, in that order; otherwise the signature bytes decide, through
/// `eddsa_outcome`.
pub open spec fn eddsa_result(c: Cacao, r: Result<String, CacaoError>) -> bool {
    &&& did_key_bytes(c.p.iss@) matches Err(e) ==> (r matches Err(CacaoError::DidKeyParse(m)) && m@ == e)
    &&& did_key_bytes(c.p.iss@) matches Ok(pk) ==> (ed25519_key_checked(pk) matches Some(e) ==> (r matches Err(
            CacaoError::Ed25519(m),
        ) && m@ == e))
    &&& did_key_bytes(c.p.iss@) matches Ok(pk) ==> (ed25519_key_checked(pk) is None ==> (sig_text_error(
        c.s.s@,
    ) matches Some(e) ==> (r matches Err(CacaoError::Hex(m)) && m@ == e)))
    &&& did_key_bytes(c.p.iss@) matches Ok(pk) ==> (ed25519_key_checked(pk) is None && sig_text_error(c.s.s@) is None ==> exists|
            sig: Seq<u8>,
        |
            #[trigger] sig_text_denotes(c.s.s@, sig) && match eddsa_outcome(c, pk, sig) {
                Ok(iss) => r matches Ok(x) && x@ == iss,
                Err(parts) => r matches Err(e) && error_parts(e) == parts,
            })
}

/// What Keccak-256 (`sha3::Keccak256`) gives for the input, as 32 bytes.
pub uninterp spec fn keccak256(data: Seq<u8>) -> Seq<u8>;

/// Hashes with Keccak-256 (`sha3::Keccak256::digest`); the contract names
/// the 32-byte digest.
#[verifier::external_body]
fn keccak256_digest(data: &[u8]) -> (out: [u8; 32])
    ensures
        out@ == keccak256(data@),
{
    let h = sha3::Keccak256::digest(data);
    let mut out = [0u8; 32];
    out.copy_from_slice(&h);
    out
}

/// What secp256k1 public-key recovery answers for a 32-byte message hash,
/// a 64-byte signature `r || s` and the parity of the point's `y`: the
/// recovered key as an uncompressed SEC1 point, or the error's text.
pub uninterp spec fn secp256k1_recovered(hash: Seq<u8>, sig: Seq<u8>, y_odd: bool) -> Result<Seq<u8>, Seq<char>>;

/// Recovers a secp256k1 public key (`Signature::from_slice`, then
/// `VerifyingKey::recover_from_prehash` with `RecoveryId::new(y_odd, false)`,
/// then `to_encoded_point(false)`). The contract names the outcome and
/// claims what SEC1 fixes of an uncompressed point: 65 bytes, led by `0x04`.
#[verifier::external_body]
fn secp256k1_recover(hash: &[u8; 32], sig: &[u8], y_odd: bool) -> (r: Result<Vec<u8>, String>)
    ensures
        match r {
            Ok(k) => secp256k1_recovered(hash@, sig@, y_odd) == Ok::<Seq<u8>, Seq<char>>(k@) && k@.len() == 65
                && k@[0] == 4,
            Err(e) => secp256k1_recovered(hash@, sig@, y_odd) == Err::<Seq<u8>, Seq<char>>(e@),
        },
{
    let signature = k256::ecdsa::Signature::from_slice(sig).map_err(|e| e.to_string())?;
    let id = k256::ecdsa::RecoveryId::new(y_odd, false);
    let key = k256::ecdsa::VerifyingKey::recover_from_prehash(hash, &signature, id).map_err(|e| e.to_string())?;
    Ok(key.to_encoded_point(false).as_bytes().to_vec())
}

/// The EIP-191 `personal_sign` form of a message: the prefix
/// `"\x19Ethereum Signed Message:\n"`, the message's length in decimal, and
/// the message.
pub open spec fn personal_message(msg: Seq<u8>) -> Seq<u8> {
    encode_utf8(seq!['\u{19}'] + "Ethereum Signed Message:\n"@ + decimal(msg.len())) + msg
}

/// The hash an `eip191` CACAO is signed over: Keccak-256 of the
/// `personal_sign` form of its message.
pub open spec fn personal_hash(c: Cacao) -> Seq<u8> {
    keccak256(personal_message(encode_utf8(join_lines(siwe_lines(c.p)))))
}

/// The Ethereum address of an Ethereum DID (`did:pkh:eip155:<chain>:0x<addr>`
/// or `did:erc725:...:0x<addr>`): the 20 bytes of the 40 hex digits that end
/// it after `:0x`.
pub open spec fn eth_did_address(did: Seq<char>) -> Result<Seq<u8>, Seq<char>> {
    let n = did.len() as int;
    if !(has_prefix(did, "did:pkh:eip155:"@) || has_prefix(did, "did:erc725:"@)) {
        Err("not an Ethereum DID"@)
    } else if n < 43 || did[n - 43] != ':' || did[n - 42] != '0' || did[n - 41] != 'x' {
        Err("invalid Ethereum address"@)
    } else {
        match hex_bytes(did.skip(n - 40)) {
            Some(b) => if b.len() == 20 {
                Ok(b)
            } else {
                Err("invalid Ethereum address"@)
            },
            None => Err("invalid Ethereum address"@),
        }
    }
}

/// The address a 65-byte `r || s || v` signature over `hash` recovers to:
/// `v` is 27 or 28 (or 0 or 1) and gives the parity of `y`; the address is
/// the last 20 bytes of the Keccak-256 of the recovered key's coordinates.
pub open spec fn recovered_address(hash: Seq<u8>, sig: Seq<u8>) -> Result<Seq<u8>, Seq<char>> {
    if sig.len() != 65 {
        Err("invalid signature length: "@ + decimal(sig.len()))
    } else {
        let v = sig[64];
        if !(v == 27 || v == 28 || v == 0 || v == 1) {
            Err("invalid recovery id: "@ + decimal(v as nat))
        } else {
            match secp256k1_recovered(hash, sig.take(64), v == 28 || v == 1) {
                Ok(k) => Ok(keccak256(k.skip(1)).skip(12)),
                Err(e) => Err(e),
            }
        }
    }
}

/// The DID an `eip191` CACAO verifies to: `did:erc725:gftd:260425:0x` and
/// the recovered address in lower-case hex.
pub open spec fn erc725_did(addr: Seq<u8>) -> Seq<char> {
    "did:erc725:gftd:260425:0x"@ + hex_text(addr)
}

/// What verifying an `eip191` CACAO gives: the issuer's address is read from
/// its DID, the signature text (hex, after any `0x`) is decoded, the signer's
/// address is recovered from the signature over the message's
/// `personal_sign` hash, and it must be the issuer's.
pub open spec fn eip191_result(c: Cacao, r: Result<String, CacaoError>) -> bool {
    match eth_did_address(c.p.iss@) {
        Err(m) => r matches Err(CacaoError::EthSig(x)) && x@ == m,
        Ok(expected) => match hex_decoded(strip_0x(c.s.s@)) {
            Err(e) => r matches Err(CacaoError::Hex(x)) && x@ == e,
            Ok(sig) => match recovered_address(personal_hash(c), sig) {
                Err(m) => r matches Err(CacaoError::EthSig(x)) && x@ == m,
                Ok(addr) => if addr == expected {
                    r matches Ok(d) && d@ == erc725_did(addr)
                } else {
                    r matches Err(CacaoError::AddressMismatch { expected: e, got: g }) && e@ == hex_text(expected)
                        && g@ == hex_text(addr)
                },
            },
        },
    }
}

fn literal_chars(s: &str) -> (v: Vec<char>)
    ensures
        v@ == s@,
{
    chars_of(s)
}

/// Reads the Ethereum address of an Ethereum DID.
fn eth_did_address_of(did: &str) -> (r: Result<Vec<u8>, String>)
    ensures
        match eth_did_address(did@) {
            Ok(b) => r matches Ok(v) && v@ == b,
            Err(m) => r matches Err(x) && x@ == m,
        },
{
    proof {
        reveal_strlit("did:pkh:eip155:");
        reveal_strlit("did:erc725:");
    }
    let cs = chars_of(did);
    let pkh = literal_chars("did:pkh:eip155:");
    let erc = literal_chars("did:erc725:");
    if !(starts_with_chars(&cs, &pkh) || starts_with_chars(&cs, &erc)) {
        return Err(String::from_str("not an Ethereum DID"));
    }
    let n = cs.len();
    if n < 43 || cs[n - 43] != ':' || cs[n - 42] != '0' || cs[n - 41] != 'x' {
        return Err(String::from_str("invalid Ethereum address"));
    }
    let tail = sub_chars(&cs, n - 40, n);
    assert(tail@ =~= did@.skip(n - 40));
    let digits = string_from_chars(&tail);
    match hex_decode_text(digits.as_str()) {
        Ok(v) => {
            if v.len() == 20 {
                Ok(v)
            } else {
                Err(String::from_str("invalid Ethereum address"))
            }
        },
        Err(_) => Err(String::from_str("invalid Ethereum address")),
    }
}

fn copy_range(b: &Vec<u8>, from: usize, to: usize) -> (v: Vec<u8>)
    requires
        from <= to <= b@.len(),
    ensures
        v@ == b@.subrange(from as int, to as int),
{
    let mut v: Vec<u8> = Vec::new();
    let mut i = from;
    while i < to
        invariant
            from <= i <= to <= b@.len(),
            v@ == b@.subrange(from as int, i as int),
        decreases to - i,
    {
        v.push(b[i]);
        assert(b@.subrange(from as int, i + 1) =~= b@.subrange(from as int, i as int).push(b@[i as int]));
        i += 1;
    }
    v
}

/// The `personal_sign` hash of a message's bytes.
fn personal_hash_of(msg: &str) -> (h: [u8; 32])
    ensures
        h@ == keccak256(personal_message(encode_utf8(msg@))),
{
    let mut head: Vec<char> = Vec::new();
    head.push('\u{19}');
    push_str_chars(&mut head, "Ethereum Signed Message:\n");
    push_decimal(&mut head, msg.as_bytes().len() as u64);
    let head = string_from_chars(&head);
    let mut bytes: Vec<u8> = Vec::new();
    let hb = head.as_str().as_bytes();
    let mb = msg.as_bytes();
    for i in 0..hb.len()
        invariant
            bytes@ == hb@.take(i as int),
    {
        bytes.push(hb[i]);
        assert(hb@.take(i + 1) =~= hb@.take(i as int).push(hb@[i as int]));
    }
    assert(hb@.take(hb@.len() as int) =~= hb@);
    for i in 0..mb.len()
        invariant
            bytes@ == hb@ + mb@.take(i as int),
    {
        bytes.push(mb[i]);
        assert(mb@.take(i + 1) =~= mb@.take(i as int).push(mb@[i as int]));
    }
    assert(mb@.take(mb@.len() as int) =~= mb@);
    assert(bytes@ =~= personal_message(encode_utf8(msg@)));
    keccak256_digest(bytes.as_slice())
}

/// Recovers the signer's address from a 65-byte `r || s || v` signature.
fn recover_address(hash: &[u8; 32], sig: &Vec<u8>) -> (r: Result<Vec<u8>, String>)
    ensures
        match recovered_address(hash@, sig@) {
            Ok(a) => r matches Ok(v) && v@ == a,
            Err(m) => r matches Err(x) && x@ == m,
        },
{
    if sig.len() != 65 {
        let mut out: Vec<char> = Vec::new();
        push_str_chars(&mut out, "invalid signature length: ");
        push_decimal(&mut out, sig.len() as u64);
        let m = string_from_chars(&out);
        assert(m@ =~= "invalid signature length: "@ + decimal(sig@.len()));
        return Err(m);
    }
    let v = sig[64];
    if !(v == 27 || v == 28 || v == 0 || v == 1) {
        let mut out: Vec<char> = Vec::new();
        push_str_chars(&mut out, "invalid recovery id: ");
        push_decimal(&mut out, v as u64);
        let m = string_from_chars(&out);
        assert(m@ =~= "invalid recovery id: "@ + decimal(v as nat));
        return Err(m);
    }
    let rs = copy_range(sig, 0, 64);
    assert(rs@ =~= sig@.take(64));
    let key = secp256k1_recover(hash, rs.as_slice(), v == 28 || v == 1)?;
    let coords = copy_range(&key, 1, 65);
    assert(coords@ =~= key@.skip(1));
    let digest = keccak256_digest(coords.as_slice());
    let mut addr: Vec<u8> = Vec::new();
    for i in 12..32
        invariant
            digest@.len() == 32,
            addr@ == digest@.subrange(12, i as int),
    {
        addr.push(digest[i]);
        assert(digest@.subrange(12, i + 1) =~= digest@.subrange(12, i as int).push(digest@[i as int]));
    }
    assert(addr@ =~= digest@.skip(12));
    Ok(addr)
}

/// What verifying a CACAO's signature gives, by signature type.
pub open spec fn sig_verifies(c: Cacao, r: Result<String, CacaoError>) -> bool {
    &&& c.s.t@ == "eip191"@ ==> eip191_result(c, r)
    &&& c.s.t@ != "eip191"@ && c.s.t@ != "EdDSA"@ ==> (r matches Err(CacaoError::UnsupportedSigType(t))
        && t@ == c.s.t@)
    &&& c.s.t@ == "EdDSA"@ ==> eddsa_result(c, r)
}

/// The text of a CACAO error.
pub open spec fn cacao_error_text(e: CacaoError) -> Seq<char> {
    match e {
        CacaoError::ParseError(m) => "cbor parse: "@ + m@,
        CacaoError::UnsupportedSigType(m) => "unsupported sig type: "@ + m@,
        CacaoError::EthSig(m) => "eth sig error: "@ + m@,
        CacaoError::Hex(m) => "hex error: "@ + m@,
        CacaoError::AddressMismatch { expected, got } => "address mismatch: expected "@ + expected@ + ", got "@
            + got@,
        CacaoError::DidKeyParse(m) => "did:key parse error: "@ + m@,
        CacaoError::Ed25519(m) => "ed25519 verification error: "@ + m@,
    }
}

impl Cacao {
    /// Verifies an `EdDSA` CACAO: an Ed25519 signature, by the issuer's
    /// `did:key`, over the EIP-4361 message. Returns the issuer DID.
    pub fn verify_eddsa(&self) -> (r: Result<String, CacaoError>)
        ensures
            eddsa_result(*self, r),
    {
        let pk = match parse_ed25519_did_key(self.p.iss.as_str()) {
            Ok(k) => k,
            Err(e) => {
                return Err(CacaoError::DidKeyParse(e));
            },
        };
        match ed25519_key_error(&pk) {
            Some(e) => {
                return Err(CacaoError::Ed25519(e));
            },
            None => {},
        }
        let msg = self.siwe_message();
        let sig_bytes = decode_sig_bytes(self.s.s.as_str())?;
        assert(sig_text_denotes(self.s.s@, sig_bytes@));
        if sig_bytes.len() != 64 {
            let mut out: Vec<char> = Vec::new();
            push_str_chars(&mut out, "expected 64-byte signature, got ");
            push_decimal(&mut out, sig_bytes.len() as u64);
            let m = string_from_chars(&out);
            assert(m@ =~= "expected 64-byte signature, got "@ + decimal(sig_bytes@.len()));
            return Err(CacaoError::Ed25519(m));
        }
        let sig = copy_64(&sig_bytes);
        match ed25519_verify(&pk, msg.as_str().as_bytes(), &sig) {
            Ok(()) => Ok(self.p.iss.clone()),
            Err(e) => Err(CacaoError::Ed25519(e)),
        }
    }

    /// Verifies an `eip191` CACAO: recovers the signer's Ethereum address
    /// from the signature over the `personal_sign` hash of the EIP-4361
    /// message and checks it against the issuer's. Returns the signer's
    /// `did:erc725` DID.
    pub fn verify_eip191(&self) -> (r: Result<String, CacaoError>)
        ensures
            eip191_result(*self, r),
    {
        let expected = match eth_did_address_of(self.p.iss.as_str()) {
            Ok(a) => a,
            Err(m) => {
                return Err(CacaoError::EthSig(m));
            },
        };
        let msg = self.siwe_message();
        let hash = personal_hash_of(msg.as_str());
        let cs = chars_of(self.s.s.as_str());
        let digits = string_from_chars(&strip_0x_chars(&cs));
        let sig = match hex_decode_text(digits.as_str()) {
            Ok(v) => v,
            Err(e) => {
                return Err(CacaoError::Hex(e));
            },
        };
        let addr = match recover_address(&hash, &sig) {
            Ok(a) => a,
            Err(m) => {
                return Err(CacaoError::EthSig(m));
            },
        };
        if same_bytes(&addr, &expected) {
            let mut out: Vec<char> = Vec::new();
            push_str_chars(&mut out, "did:erc725:gftd:260425:0x");
            push_str_chars(&mut out, hex_encode(addr.as_slice()).as_str());
            let d = string_from_chars(&out);
            assert(d@ =~= erc725_did(addr@));
            Ok(d)
        } else {
            Err(CacaoError::AddressMismatch { expected: hex_encode(expected.as_slice()), got: hex_encode(addr.as_slice()) })
        }
    }

    /// Verifies the signature. `EdDSA` signatures are checked with
    /// `verify_eddsa`, `eip191` signatures with `verify_eip191` (the signer's
    /// address is recovered and must be the issuer's); other types are
    /// unsupported.
    pub fn verify_signature(&self) -> (r: Result<String, CacaoError>)
        ensures
            sig_verifies(*self, r),
    {
        proof {
            reveal_strlit("eip191");
            reveal_strlit("EdDSA");
        }
        if same_str(self.s.t.as_str(), "eip191") {
            assert(self.s.t@ != "EdDSA"@) by {
                assert("eip191"@[1] != "EdDSA"@[1]);
            }
            self.verify_eip191()
        } else if same_str(self.s.t.as_str(), "EdDSA") {
            self.verify_eddsa()
        } else {
            Err(CacaoError::UnsupportedSigType(self.s.t.clone()))
        }
    }
}

impl CacaoError {
    /// Human-readable description.
    pub fn message(&self) -> (s: String)
        ensures
            s@ == cacao_error_text(*self),
    {
        let mut out: Vec<char> = Vec::new();
        match self {
            CacaoError::ParseError(m) => {
                push_str_chars(&mut out, "cbor parse: ");
                push_str_chars(&mut out, m.as_str());
            },
            CacaoError::UnsupportedSigType(m) => {
                push_str_chars(&mut out, "unsupported sig type: ");
                push_str_chars(&mut out, m.as_str());
            },
            CacaoError::EthSig(m) => {
                push_str_chars(&mut out, "eth sig error: ");
                push_str_chars(&mut out, m.as_str());
            },
            CacaoError::Hex(m) => {
                push_str_chars(&mut out, "hex error: ");
                push_str_chars(&mut out, m.as_str());
            },
            CacaoError::AddressMismatch { expected, got } => {
                push_str_chars(&mut out, "address mismatch: expected ");
                push_str_chars(&mut out, expected.as_str());
                push_str_chars(&mut out, ", got ");
                push_str_chars(&mut out, got.as_str());
            },
            CacaoError::DidKeyParse(m) => {
                push_str_chars(&mut out, "did:key parse error: ");
                push_str_chars(&mut out, m.as_str());
            },
            CacaoError::Ed25519(m) => {
                push_str_chars(&mut out, "ed25519 verification error: ");
                push_str_chars(&mut out, m.as_str());
            },
        }
        let s = string_from_chars(&out);
        s
    }
}

} // verus!
