//! Networking vocabulary: GossipSub topic names, Pregel wire messages and the
//! transport handle.
use vstd::prelude::*;
use crate::text::{chars_of, strip_prefix, strip_prefix_chars, string_from_chars};

verus! {

/// `s` without its leading `'/'` characters.
pub open spec fn trim_leading_slashes(s: Seq<char>) -> Seq<char>
    decreases s.len(),
{
    if s.len() > 0 && s[0] == '/' {
        trim_leading_slashes(s.skip(1))
    } else {
        s
    }
}

/// The text `kotoba/`.
pub open spec fn kotoba_prefix() -> Seq<char> {
    seq!['k', 'o', 't', 'o', 'b', 'a', '/']
}

/// The GossipSub topic of a journal topic: `kotoba/` followed by the topic
/// without its leading slashes.
pub fn gossipsub_topic(kotoba_topic: &str) -> (t: String)
    ensures
        t@ == kotoba_prefix() + trim_leading_slashes(kotoba_topic@),
{
    let cs = chars_of(kotoba_topic);
    let mut start: usize = 0;
    assert(cs@.skip(0) =~= cs@);
    while start < cs.len() && cs[start] == '/'
        invariant
            start <= cs@.len(),
            trim_leading_slashes(cs@.skip(start as int)) == trim_leading_slashes(cs@),
        decreases cs@.len() - start,
    {
        assert(cs@.skip(start as int).skip(1) =~= cs@.skip(start + 1));
        start += 1;
    }
    let mut out: Vec<char> = Vec::new();
    out.push('k');
    out.push('o');
    out.push('t');
    out.push('o');
    out.push('b');
    out.push('a');
    out.push('/');
    assert(out@ =~= kotoba_prefix());
    let mut i: usize = start;
    while i < cs.len()
        invariant
            start <= i <= cs@.len(),
            out@ == kotoba_prefix() + cs@.subrange(start as int, i as int),
        decreases cs@.len() - i,
    {
        out.push(cs[i]);
        assert(cs@.subrange(start as int, i + 1) =~= cs@.subrange(start as int, i as int).push(cs@[i as int]));
        i += 1;
    }
    assert(cs@.subrange(start as int, cs@.len() as int) =~= cs@.skip(start as int));
    assert(trim_leading_slashes(cs@.skip(start as int)) == cs@.skip(start as int));
    string_from_chars(&out)
}

/// The journal topic under which a message received on a GossipSub topic
/// is stored: the topic without its `kotoba/` prefix, or the topic itself
/// when it has none.
pub fn journal_topic(gossip_topic: &str) -> (t: String)
    ensures
        t@ == strip_prefix(gossip_topic@, kotoba_prefix()),
{
    let cs = chars_of(gossip_topic);
    let p = chars_of("kotoba/");
    proof {
        reveal_strlit("kotoba/");
        assert(p@ =~= kotoba_prefix());
    }
    string_from_chars(&strip_prefix_chars(&cs, &p))
}

/// A journal topic published over GossipSub is stored back under the same
/// topic, less its leading slashes.
pub proof fn lemma_topic_roundtrip(t: Seq<char>)
    ensures
        strip_prefix(kotoba_prefix() + trim_leading_slashes(t), kotoba_prefix()) == trim_leading_slashes(t),
{
    let g = kotoba_prefix() + trim_leading_slashes(t);
    assert(g.take(7) =~= kotoba_prefix());
    assert(g.skip(7) =~= trim_leading_slashes(t));
}

/// Wire format of a Pregel message between nodes.
#[derive(Debug)]
pub struct PregelNetMessage {
    /// Source vertex (multibase identifier).
    pub src: String,
    /// Destination vertex (multibase identifier).
    pub dst: String,
    /// Payload, base64-encoded.
    pub payload_b64: String,
}

/// GossipSub topic key of Pregel messages (the swarm adds `kotoba/`).
pub const PREGEL_GOSSIP_TOPIC: &'static str = "pregel/messages";

/// Transport handle of a node.
pub struct KotobaTransport {
    /// The node's peer identifier.
    pub local_peer_id: String,
}

impl KotobaTransport {
    /// A transport whose peer identifier is not yet known (empty).
    pub fn new() -> (t: KotobaTransport)
        ensures
            t.local_peer_id@ == Seq::<char>::empty(),
    {
        KotobaTransport { local_peer_id: String::new() }
    }
}

} // verus!
