//! The quad store: one arrangement per named graph.
use vstd::prelude::*;
use crate::cid::{multibase_of, KotobaCid};
use crate::datom::{datom_of_quad, insert_view, remove_view, Arrangement, DatomView, Delta, DeltaView};
use crate::keymap::KeyMap;
use crate::quad::Quad;

verus! {

/// Model of a quad store: graph multibase to the datoms of that graph.
pub type StoreView = Map<Seq<char>, Seq<DatomView>>;

/// The datoms of graph `g` (none when it was never written).
pub open spec fn graph_datoms(m: StoreView, g: Seq<char>) -> Seq<DatomView> {
    if m.contains_key(g) {
        m[g]
    } else {
        Seq::empty()
    }
}

/// Quads kept per named graph, keyed by the graph identifier's multibase.
#[derive(Debug)]
pub struct QuadStore {
    arrangements: KeyMap<String, Arrangement>,
}

impl View for QuadStore {
    type V = StoreView;

    closed spec fn view(&self) -> StoreView {
        self.arrangements@.map_values(|a: Arrangement| a@)
    }
}

impl QuadStore {
    /// An empty store.
    pub fn new() -> (s: QuadStore)
        ensures
            s@ == StoreView::empty(),
    {
        let s = QuadStore { arrangements: KeyMap::new() };
        assert(s@ =~= StoreView::empty());
        s
    }

    /// Adds a quad to its graph's arrangement and returns its assertion.
    pub fn assert_quad(&mut self, quad: Quad) -> (d: Delta)
        ensures
            d@ == (DeltaView { datom: datom_of_quad(quad@), added: true }),
            final(self)@ == old(self)@.insert(
                multibase_of(quad.graph.0@),
                insert_view(graph_datoms(old(self)@, multibase_of(quad.graph.0@)), datom_of_quad(quad@)),
            ),
    {
        let g = quad.graph.to_multibase();
        let mut arr = match self.arrangements.take(&g) {
            Some(a) => a,
            None => Arrangement::new(),
        };
        arr.insert(&quad);
        let ghost gv = g@;
        let ghost av = arr@;
        self.arrangements.insert(g, arr);
        assert(self@ =~= old(self)@.insert(gv, av));
        Delta::assert_quad(quad)
    }

    /// Removes a quad from its graph's arrangement and returns its retraction.
    pub fn retract(&mut self, quad: Quad) -> (d: Delta)
        ensures
            d@ == (DeltaView { datom: datom_of_quad(quad@), added: false }),
            final(self)@ == old(self)@.insert(
                multibase_of(quad.graph.0@),
                remove_view(graph_datoms(old(self)@, multibase_of(quad.graph.0@)), datom_of_quad(quad@)),
            ),
    {
        let g = quad.graph.to_multibase();
        let mut arr = match self.arrangements.take(&g) {
            Some(a) => a,
            None => Arrangement::new(),
        };
        arr.remove(&quad);
        let ghost gv = g@;
        let ghost av = arr@;
        self.arrangements.insert(g, arr);
        assert(self@ =~= old(self)@.insert(gv, av));
        Delta::retract(quad)
    }

    /// A copy of a graph's arrangement, if the graph was ever written.
    pub fn arrangement(&self, graph_cid: &KotobaCid) -> (r: Option<Arrangement>)
        ensures
            match r {
                Some(a) => self@.contains_key(multibase_of(graph_cid.0@)) && a@ == self@[multibase_of(
                    graph_cid.0@,
                )],
                None => !self@.contains_key(multibase_of(graph_cid.0@)),
            },
    {
        let g = graph_cid.to_multibase();
        match self.arrangements.get(&g) {
            Some(a) => Some(a.duplicate()),
            None => None,
        }
    }
}

/// A quad asserted into a store is held by its graph afterwards.
pub proof fn lemma_assert_holds(m: StoreView, g: Seq<char>, d: DatomView)
    ensures
        graph_datoms(m.insert(g, insert_view(graph_datoms(m, g), d)), g).contains(d),
{
    let s = graph_datoms(m, g);
    if !s.contains(d) {
        assert(s.push(d)[s.len() as int] == d);
    }
}

} // verus!
