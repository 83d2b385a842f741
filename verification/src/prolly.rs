//! Prolly trees: probabilistic-boundary, content-addressed ordered sets.
use vstd::prelude::*;
use crate::cid::{KotobaCid, blake3_hash, blake3_digest};
use crate::keymap::KeyMap;

verus! {

/// A key is a chunk boundary when the big-endian number formed by the first
/// four bytes of its blake3 digest has these bits clear.
pub const BOUNDARY_MASK: u32 = 0x0000_00FF;

/// A node of a Prolly tree.
#[derive(Debug)]
pub enum ProllyNode {
    /// Sorted (key, value) entries.
    Leaf { entries: Vec<(Vec<u8>, Vec<u8>)>, cid: KotobaCid },
    /// (boundary key, child identifier) pairs.
    Internal { children: Vec<(Vec<u8>, KotobaCid)>, cid: KotobaCid },
}

/// The big-endian number formed by the first four bytes of a digest.
pub open spec fn digest_prefix(h: Seq<u8>) -> u32 {
    ((h[0] as u32) << 24u32) | ((h[1] as u32) << 16u32) | ((h[2] as u32) << 8u32) | (h[3] as u32)
}

impl ProllyNode {
    /// The node's identifier.
    pub fn cid(&self) -> (r: &KotobaCid)
        ensures
            *r == match self {
                ProllyNode::Leaf { cid, .. } => *cid,
                ProllyNode::Internal { cid, .. } => *cid,
            },
    {
        match self {
            ProllyNode::Leaf { cid, .. } => cid,
            ProllyNode::Internal { cid, .. } => cid,
        }
    }

    /// Whether a key ends a chunk.
    pub fn is_boundary(key: &[u8]) -> (b: bool)
        ensures
            b == (digest_prefix(blake3_hash(key@)) & BOUNDARY_MASK == 0),
    {
        let h = blake3_digest(key);
        let prefix: u32 = ((h[0] as u32) << 24u32) | ((h[1] as u32) << 16u32) | ((h[2] as u32) << 8u32)
            | (h[3] as u32);
        (prefix & BOUNDARY_MASK) == 0
    }
}

/// A Prolly tree: an optional root and the nodes by identifier.
pub struct ProllyTree {
    pub root: Option<KotobaCid>,
    nodes: KeyMap<KotobaCid, ProllyNode>,
}

impl ProllyTree {
    /// The root identifier (model).
    pub closed spec fn root_view(&self) -> Option<KotobaCid> {
        self.root
    }

    /// The nodes by identifier bytes.
    pub closed spec fn nodes(&self) -> Map<Seq<u8>, ProllyNode> {
        self.nodes@
    }

    /// An empty tree.
    pub fn new() -> (t: ProllyTree)
        ensures
            t.root_view() is None,
            t.nodes() == Map::<Seq<u8>, ProllyNode>::empty(),
    {
        ProllyTree { root: None, nodes: KeyMap::new() }
    }

    /// The root identifier.
    pub fn root_cid(&self) -> (r: Option<&KotobaCid>)
        ensures
            match self.root_view() {
                Some(c) => r == Some(&c),
                None => r is None,
            },
    {
        match &self.root {
            Some(c) => Some(c),
            None => None,
        }
    }

    /// The nodes only in `a` and only in `b`, at root granularity: nothing for
    /// equal roots, otherwise each root on its own side.
    pub fn diff(a_root: &KotobaCid, b_root: &KotobaCid) -> (r: (Vec<KotobaCid>, Vec<KotobaCid>))
        ensures
            a_root.0@ == b_root.0@ ==> r.0@.len() == 0 && r.1@.len() == 0,
            a_root.0@ != b_root.0@ ==> r.0@ == seq![*a_root] && r.1@ == seq![*b_root],
    {
        if *a_root == *b_root {
            return (Vec::new(), Vec::new());
        }
        let mut a: Vec<KotobaCid> = Vec::new();
        a.push(*a_root);
        let mut b: Vec<KotobaCid> = Vec::new();
        b.push(*b_root);
        (a, b)
    }
}

} // verus!
