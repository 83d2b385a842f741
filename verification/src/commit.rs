//! Commits (Prolly-tree root snapshots of named graphs) and the commit DAG
//! that tracks each graph's head.
use vstd::prelude::*;
use crate::cid::KotobaCid;
use crate::keymap::KeyMap;

verus! {

/// A snapshot of a named graph.
#[derive(Debug)]
pub struct Commit {
    pub cid: KotobaCid,
    /// The named graph.
    pub graph: KotobaCid,
    /// Prolly-tree root.
    pub root: KotobaCid,
    /// Parent commit.
    pub prev: Option<KotobaCid>,
    /// DID of the author.
    pub author: String,
    /// Monotonic revision.
    pub seq: u64,
    pub ts: u64,
}

/// Commits by identifier, and the head commit of each named graph.
pub struct CommitDag {
    commits: KeyMap<KotobaCid, Commit>,
    heads: KeyMap<KotobaCid, KotobaCid>,
}

impl CommitDag {
    /// Commits by identifier bytes.
    pub closed spec fn commits(&self) -> Map<Seq<u8>, Commit> {
        self.commits@
    }

    /// Head commit identifier by graph identifier bytes.
    pub closed spec fn heads(&self) -> Map<Seq<u8>, KotobaCid> {
        self.heads@
    }

    /// The head commit of a graph, if its head is a known commit.
    pub open spec fn head_of(&self, graph: Seq<u8>) -> Option<Commit> {
        if self.heads().contains_key(graph) && self.commits().contains_key(self.heads()[graph].0@) {
            Some(self.commits()[self.heads()[graph].0@])
        } else {
            None
        }
    }

    /// An empty DAG.
    pub fn new() -> (d: CommitDag)
        ensures
            d.commits() == Map::<Seq<u8>, Commit>::empty(),
            d.heads() == Map::<Seq<u8>, KotobaCid>::empty(),
    {
        CommitDag { commits: KeyMap::new(), heads: KeyMap::new() }
    }

    /// Records a commit and makes it the head of its graph.
    pub fn add(&mut self, commit: Commit)
        ensures
            final(self).heads() == old(self).heads().insert(commit.graph.0@, commit.cid),
            final(self).commits() == old(self).commits().insert(commit.cid.0@, commit),
            final(self).head_of(commit.graph.0@) == Some(commit),
    {
        let g = commit.graph;
        let c = commit.cid;
        self.heads.insert(g, c);
        self.commits.insert(c, commit);
    }

    /// The head commit of a graph.
    pub fn head(&self, graph_cid: &KotobaCid) -> (r: Option<&Commit>)
        ensures
            match r {
                Some(c) => self.head_of(graph_cid.0@) == Some(*c),
                None => self.head_of(graph_cid.0@) is None,
            },
    {
        match self.heads.get(graph_cid) {
            None => None,
            Some(h) => self.commits.get(h),
        }
    }
}

/// After a commit is added, every graph whose head is that commit's identifier
/// reads that commit, and every other graph reads what it read before.
pub proof fn lemma_add_effect(before: CommitDag, after: CommitDag, commit: Commit, graph: Seq<u8>)
    requires
        after.heads() == before.heads().insert(commit.graph.0@, commit.cid),
        after.commits() == before.commits().insert(commit.cid.0@, commit),
    ensures
        after.head_of(graph) == if graph == commit.graph.0@ {
            Some(commit)
        } else if before.heads().contains_key(graph) && before.heads()[graph].0@ == commit.cid.0@ {
            Some(commit)
        } else {
            before.head_of(graph)
        },
{
}

} // verus!
