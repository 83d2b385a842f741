//! Content identifiers: 36-byte CIDv1 (raw codec, blake3 multihash).
use vstd::prelude::*;
use crate::base32;
use crate::text::{chars_of, string_from_chars};

verus! {

/// What `blake3::hash` returns for the given input, as 32 bytes.
pub uninterp spec fn blake3_hash(data: Seq<u8>) -> Seq<u8>;

/// Calls `blake3::hash`; the contract names its 32-byte digest.
#[verifier::external_body]
pub(crate) fn blake3_digest(data: &[u8]) -> (out: [u8; 32])
    ensures
        out@ == blake3_hash(data@),
{
    *blake3::hash(data).as_bytes()
}

/// A Kotoba content identifier.
#[derive(Clone, Copy, Debug)]
pub struct KotobaCid(pub [u8; 36]);

impl PartialEq for KotobaCid {
    fn eq(&self, other: &Self) -> (r: bool) {
        let mut i: usize = 0;
        while i < 36
            invariant
                0 <= i <= 36,
                self.0@.len() == 36,
                other.0@.len() == 36,
                forall|j: int| 0 <= j < i ==> self.0@[j] == other.0@[j],
            decreases 36 - i,
        {
            if self.0[i] != other.0[i] {
                return false;
            }
            i += 1;
        }
        assert(self.0@ =~= other.0@);
        true
    }
}

impl Eq for KotobaCid {}

impl vstd::std_specs::cmp::PartialEqSpecImpl for KotobaCid {
    open spec fn obeys_eq_spec() -> bool {
        true
    }

    open spec fn eq_spec(&self, other: &KotobaCid) -> bool {
        self.0@ == other.0@
    }
}

/// The four header bytes: CIDv1, raw codec, blake3 multihash, 32-byte digest.
pub open spec fn cid_header() -> Seq<u8> {
    seq![0x01u8, 0x55u8, 0x1eu8, 0x20u8]
}

/// The bytes of the identifier of `data`.
pub open spec fn cid_bytes_of(data: Seq<u8>) -> Seq<u8> {
    cid_header() + blake3_hash(data)
}

impl KotobaCid {
    /// Identifier of the given content.
    pub fn from_bytes(data: &[u8]) -> (cid: KotobaCid)
        ensures
            cid.0@ == cid_bytes_of(data@),
    {
        let digest = blake3_digest(data);
        let mut out = [0u8; 36];
        out[0] = 0x01;
        out[1] = 0x55;
        out[2] = 0x1e;
        out[3] = 0x20;
        let mut i: usize = 0;
        while i < 32
            invariant
                0 <= i <= 32,
                out@.len() == 36,
                digest@.len() == 32,
                out@.subrange(0, 4) == cid_header(),
                forall|j: int| 0 <= j < i ==> out@[4 + j] == digest@[j],
            decreases 32 - i,
        {
            out[4 + i] = digest[i];
            i += 1;
        }
        assert(out@ =~= cid_header() + digest@);
        KotobaCid(out)
    }
}


/// The multibase (`b` + base32) text of identifier bytes.
pub open spec fn multibase_of(bytes: Seq<u8>) -> Seq<char> {
    seq!['b'] + base32::encode(bytes)
}

/// The identifier bytes that a multibase text denotes, if it is a `b`-prefixed
/// base32 text of exactly 36 bytes.
pub open spec fn parse_multibase(s: Seq<char>) -> Option<Seq<u8>> {
    if s.len() >= 1 && s[0] == 'b' {
        match base32::decode(s.skip(1)) {
            Some(b) => if b.len() == 36 {
                Some(b)
            } else {
                None
            },
            None => None,
        }
    } else {
        None
    }
}

impl KotobaCid {
    /// Multibase text of this identifier (`b` followed by lower-case base32).
    pub fn to_multibase(&self) -> (s: String)
        ensures
            s@ == multibase_of(self.0@),
    {
        let enc = base32::encode_bytes(self.0.as_slice());
        let mut cs: Vec<char> = Vec::new();
        cs.push('b');
        let mut i: usize = 0;
        while i < enc.len()
            invariant
                i <= enc@.len(),
                cs@ == seq!['b'] + enc@.take(i as int),
            decreases enc@.len() - i,
        {
            cs.push(enc[i]);
            assert(enc@.take(i + 1) =~= enc@.take(i as int).push(enc@[i as int]));
            i += 1;
        }
        assert(enc@.take(enc@.len() as int) =~= enc@);
        string_from_chars(&cs)
    }

    /// Parses a multibase text produced by `to_multibase`.
    pub fn from_multibase(s: &str) -> (r: Option<KotobaCid>)
        ensures
            match parse_multibase(s@) {
                Some(b) => r matches Some(c) && c.0@ == b,
                None => r is None,
            },
    {
        let cs = chars_of(s);
        if cs.len() == 0 || cs[0] != 'b' {
            return None;
        }
        let mut rest: Vec<char> = Vec::new();
        let mut i: usize = 1;
        while i < cs.len()
            invariant
                1 <= i <= cs@.len(),
                rest@ == cs@.subrange(1, i as int),
            decreases cs@.len() - i,
        {
            rest.push(cs[i]);
            assert(cs@.subrange(1, i + 1) =~= cs@.subrange(1, i as int).push(cs@[i as int]));
            i += 1;
        }
        assert(rest@ =~= s@.skip(1));
        match base32::decode_chars(rest.as_slice()) {
            None => None,
            Some(bytes) => {
                if bytes.len() != 36 {
                    return None;
                }
                let mut out = [0u8; 36];
                let mut k: usize = 0;
                while k < 36
                    invariant
                        k <= 36,
                        bytes@.len() == 36,
                        out@.len() == 36,
                        forall|j: int| 0 <= j < k ==> out@[j] == bytes@[j],
                    decreases 36 - k,
                {
                    out[k] = bytes[k];
                    k += 1;
                }
                assert(out@ =~= bytes@);
                Some(KotobaCid(out))
            },
        }
    }
}

/// Reading back the multibase text of an identifier gives the identifier.
pub proof fn lemma_multibase_roundtrip(c: KotobaCid)
    ensures
        parse_multibase(multibase_of(c.0@)) == Some(c.0@),
{
    let s = multibase_of(c.0@);
    assert(s.skip(1) =~= base32::encode(c.0@));
    base32::lemma_decode_encode(c.0@);
}

/// Distinct identifiers have distinct multibase texts.
pub proof fn lemma_multibase_injective(a: KotobaCid, b: KotobaCid)
    requires
        multibase_of(a.0@) == multibase_of(b.0@),
    ensures
        a.0@ == b.0@,
{
    lemma_multibase_roundtrip(a);
    lemma_multibase_roundtrip(b);
}

} // verus!
