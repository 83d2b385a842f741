//! What the command-line client decides on its own: the bearer token it
//! sends and the URLs it calls.
use vstd::prelude::*;
use vstd::utf8::encode_utf8;
use crate::codec::{b64url_encode, b64url_encode_bytes};
use crate::text::{chars_of, push_str_chars, string_from_chars};

verus! {

/// Header of the demo token.
pub open spec fn demo_header() -> Seq<char> {
    "{\"alg\":\"HS256\",\"typ\":\"JWT\"}"@
}

/// Claims of the demo token: a fixed subject and an expiry far ahead.
pub open spec fn demo_claims() -> Seq<char> {
    "{\"sub\":\"did:key:zKotobaDemo\",\"exp\":9999999999}"@
}

/// A JWT-shaped token that never expires: base64url header and claims and
/// a fixed signature part. The node's authenticated tier checks only the
/// claims, so it serves as a demo credential.
pub fn demo_token() -> (t: String)
    ensures
        t@ == b64url_encode(encode_utf8(demo_header())) + "."@ + b64url_encode(encode_utf8(demo_claims()))
            + ".demosig"@,
{
    let h = b64url_encode_bytes("{\"alg\":\"HS256\",\"typ\":\"JWT\"}".as_bytes());
    let c = b64url_encode_bytes("{\"sub\":\"did:key:zKotobaDemo\",\"exp\":9999999999}".as_bytes());
    let mut out: Vec<char> = Vec::new();
    push_str_chars(&mut out, h.as_str());
    push_str_chars(&mut out, ".");
    push_str_chars(&mut out, c.as_str());
    push_str_chars(&mut out, ".demosig");
    let t = string_from_chars(&out);
    assert(t@ =~= b64url_encode(encode_utf8(demo_header())) + "."@ + b64url_encode(
        encode_utf8(demo_claims()),
    ) + ".demosig"@);
    t
}

/// The token the demo and the benchmark send: the given one when it looks
/// like a JWT (contains a dot), else the demo token.
pub fn request_token(token_in: &str) -> (t: String)
    ensures
        token_in@.contains('.') ==> t@ == token_in@,
        !token_in@.contains('.') ==> t@ == b64url_encode(encode_utf8(demo_header())) + "."@
            + b64url_encode(encode_utf8(demo_claims())) + ".demosig"@,
{
    let cs = chars_of(token_in);
    let mut i: usize = 0;
    while i < cs.len()
        invariant
            i <= cs@.len(),
            cs@ == token_in@,
            forall|k: int| 0 <= k < i ==> cs@[k] != '.',
        decreases cs@.len() - i,
    {
        if cs[i] == '.' {
            assert(token_in@[i as int] == '.');
            return token_in.to_owned();
        }
        i += 1;
    }
    assert(!token_in@.contains('.'));
    demo_token()
}

/// The server base without trailing slashes (`trim_end_matches('/')`).
pub open spec fn base_of(url: Seq<char>) -> Seq<char>
    decreases url.len(),
{
    if url.len() > 0 && url.last() == '/' {
        base_of(url.drop_last())
    } else {
        url
    }
}

/// The URL of an XRPC method on a server: `<base>/xrpc/<nsid>`.
pub fn xrpc_url(url: &str, nsid: &str) -> (u: String)
    ensures
        u@ == base_of(url@) + "/xrpc/"@ + nsid@,
{
    let cs = chars_of(url);
    let mut n: usize = cs.len();
    assert(cs@.take(n as int) =~= cs@);
    while n > 0 && cs[n - 1] == '/'
        invariant
            n <= cs@.len(),
            cs@ == url@,
            base_of(url@) == base_of(cs@.take(n as int)),
        decreases n,
    {
        assert(cs@.take(n as int).drop_last() =~= cs@.take(n - 1));
        n -= 1;
    }
    let mut out: Vec<char> = Vec::new();
    let mut k: usize = 0;
    while k < n
        invariant
            k <= n <= cs@.len(),
            out@ == cs@.take(k as int),
        decreases n - k,
    {
        out.push(cs[k]);
        assert(cs@.take(k + 1) =~= cs@.take(k as int).push(cs@[k as int]));
        k += 1;
    }
    push_str_chars(&mut out, "/xrpc/");
    push_str_chars(&mut out, nsid);
    let u = string_from_chars(&out);
    assert(u@ =~= base_of(url@) + "/xrpc/"@ + nsid@);
    u
}

} // verus!
