//! IPFS content identifiers: CIDv1 with a caller-chosen codec and a
//! sha2-256 multihash, their multibase text, and parsing.
use vstd::prelude::*;
use crate::base32;
use crate::text::string_from_chars;
use multihash_codetable::MultihashDigest;

verus! {

pub const CODEC_RAW: u64 = 0x55;
pub const CODEC_DAG_PB: u64 = 0x70;
pub const CODEC_DAG_CBOR: u64 = 0x71;
pub const MH_SHA2_256: u64 = 0x12;

/// Why a CID could not be made or read.
#[derive(Debug)]
pub enum CidError {
    Parse(String),
    Cbor(String),
}

/// A content identifier, by its parts: version (0 or 1, as in the CID
/// crate), codec, multihash code and digest.
#[derive(Debug, Clone, PartialEq, Eq)]
pub struct IpfsCid {
    pub version: u64,
    pub codec: u64,
    pub hash_code: u64,
    pub digest: Vec<u8>,
}

/// The sha2-256 digest of `data`.
pub uninterp spec fn sha2_256(data: Seq<u8>) -> Seq<u8>;

/// The sha2-256 digest of `data` (`Code::Sha2_256.digest`), 32 bytes.
#[verifier::external_body]
fn sha2_256_digest(data: &[u8]) -> (d: Vec<u8>)
    ensures
        d@ == sha2_256(data@),
        d@.len() == 32,
{
    multihash_codetable::Code::Sha2_256.digest(data).digest().to_vec()
}

/// The CIDv1 of an encoded block under `codec`.
pub fn cid_for_bytes(codec: u64, data: &[u8]) -> (c: IpfsCid)
    ensures
        c.version == 1,
        c.codec == codec,
        c.hash_code == MH_SHA2_256,
        c.digest@ == sha2_256(data@),
        c.digest@.len() == 32,
{
    IpfsCid { version: 1, codec, hash_code: MH_SHA2_256, digest: sha2_256_digest(data) }
}

/// The raw-codec CIDv1 of arbitrary bytes.
pub fn raw_cid(data: &[u8]) -> (c: IpfsCid)
    ensures
        c.version == 1,
        c.codec == CODEC_RAW,
        c.hash_code == MH_SHA2_256,
        c.digest@ == sha2_256(data@),
        c.digest@.len() == 32,
{
    cid_for_bytes(CODEC_RAW, data)
}

/// Whether a CID carries a 32-byte sha2-256 multihash.
pub fn is_sha2_256(cid: &IpfsCid) -> (b: bool)
    ensures
        b == (cid.hash_code == MH_SHA2_256 && cid.digest@.len() == 32),
{
    cid.hash_code == MH_SHA2_256 && cid.digest.len() == 32
}

/// Unsigned LEB128 of `n`.
pub open spec fn varint(n: nat) -> Seq<u8>
    decreases n,
{
    if n < 128 {
        seq![n as u8]
    } else {
        seq![(n % 128 + 128) as u8] + varint(n / 128)
    }
}

fn push_varint(out: &mut Vec<u8>, n: u64)
    ensures
        final(out)@ == old(out)@ + varint(n as nat),
    decreases n,
{
    if n < 128 {
        out.push(n as u8);
        assert(final(out)@ =~= old(out)@ + varint(n as nat));
    } else {
        let ghost start = out@;
        out.push((n % 128 + 128) as u8);
        push_varint(out, n / 128);
        assert(out@ =~= start + varint(n as nat));
    }
}

/// The multihash of a CID: hash code, digest length, digest.
pub open spec fn multihash_bytes(c: IpfsCid) -> Seq<u8> {
    varint(c.hash_code as nat) + varint(c.digest@.len()) + c.digest@
}

/// The binary form of a CID: a CIDv0 is its multihash alone; a CIDv1 is its
/// version, its codec, then its multihash.
pub open spec fn cid_bytes(c: IpfsCid) -> Seq<u8> {
    if c.version == 0 {
        multihash_bytes(c)
    } else {
        varint(c.version as nat) + varint(c.codec as nat) + multihash_bytes(c)
    }
}

/// What base58btc (the Bitcoin alphabet, no multibase prefix) writes for the
/// input (`multibase::Base::Base58Btc.encode`).
pub uninterp spec fn base58btc(data: Seq<u8>) -> Seq<char>;

/// Writes bytes in base58btc; the contract names the text.
#[verifier::external_body]
fn base58btc_encode(data: &[u8]) -> (s: String)
    ensures
        s@ == base58btc(data@),
{
    multibase::Base::Base58Btc.encode(data)
}

/// The text of a CID: a CIDv0 is the base58btc of its binary form, with no
/// prefix; a CIDv1 is `b` and the lower-case base32 of its binary form.
pub open spec fn cid_text(c: IpfsCid) -> Seq<char> {
    if c.version == 0 {
        base58btc(cid_bytes(c))
    } else {
        seq!['b'] + base32::encode(cid_bytes(c))
    }
}

impl IpfsCid {
    /// The binary form.
    pub fn to_bytes(&self) -> (b: Vec<u8>)
        requires
            self.version <= 1,
        ensures
            b@ == cid_bytes(*self),
    {
        let mut b: Vec<u8> = Vec::new();
        if self.version != 0 {
            push_varint(&mut b, self.version);
            push_varint(&mut b, self.codec);
        }
        let ghost head = b@;
        push_varint(&mut b, self.hash_code);
        push_varint(&mut b, self.digest.len() as u64);
        let mut d = self.digest.clone();
        b.append(&mut d);
        assert(b@ =~= cid_bytes(*self));
        b
    }

    /// The text: base58btc for version 0, multibase base32 for version 1.
    pub fn to_text(&self) -> (s: String)
        requires
            self.version <= 1,
        ensures
            s@ == cid_text(*self),
    {
        let bytes = self.to_bytes();
        if self.version == 0 {
            return base58btc_encode(bytes.as_slice());
        }
        let enc = base32::encode_bytes(bytes.as_slice());
        let mut cs: Vec<char> = Vec::new();
        cs.push('b');
        let mut e = enc;
        cs.append(&mut e);
        assert(cs@ =~= cid_text(*self));
        string_from_chars(&cs)
    }
}

/// What the CID crate reads from a text: version, codec, multihash code and
/// digest, or the text of its error.
pub uninterp spec fn cid_parsed(s: Seq<char>) -> Result<(u64, u64, u64, Seq<u8>), Seq<char>>;

/// The parts of a CID: version, codec, multihash code, digest.
pub open spec fn parts_of(c: IpfsCid) -> (u64, u64, u64, Seq<u8>) {
    (c.version, c.codec, c.hash_code, c.digest@)
}

/// A successful parse giving these parts.
pub open spec fn parse_success(p: (u64, u64, u64, Seq<u8>)) -> Result<(u64, u64, u64, Seq<u8>), Seq<char>> {
    Ok(p)
}

/// A failed parse with message `m`.
pub open spec fn parse_failure(m: Seq<char>) -> Result<(u64, u64, u64, Seq<u8>), Seq<char>> {
    Err(m)
}

/// A parse of the text of a version 1 CID (with a digest of at most 64
/// bytes) gives back that CID.
pub open spec fn reads_back(s: Seq<char>, r: Result<IpfsCid, CidError>) -> bool {
    forall|c: IpfsCid|
        c.version == 1 && c.digest@.len() <= 64 && #[trigger] cid_text(c) == s ==> (r matches Ok(x)
            && x.version == c.version && x.codec == c.codec && x.hash_code == c.hash_code && x.digest@
            == c.digest@)
}

/// Parses any CID text the CID crate accepts (`str::parse::<Cid>`). The
/// text of a version 1 CID reads back as that CID.
#[verifier::external_body]
pub fn parse_cid(s: &str) -> (r: Result<IpfsCid, CidError>)
    ensures
        r matches Ok(c) ==> cid_parsed(s@) == parse_success(parts_of(c)),
        r matches Err(e) ==> (e matches CidError::Parse(m) && cid_parsed(s@) == parse_failure(m@)),
        reads_back(s@, r),
{
    match s.parse::<ipld_core::cid::Cid>() {
        Ok(c) => Ok(IpfsCid {
            version: c.version().into(),
            codec: c.codec(),
            hash_code: c.hash().code(),
            digest: c.hash().digest().to_vec(),
        }),
        Err(e) => Err(CidError::Parse(e.to_string())),
    }
}

} // verus!
