//! Datoms (entity, attribute, value, transaction), the deltas that assert or
//! retract them, and the arrangement: the set of datoms currently held.
use vstd::prelude::*;
use crate::cid::KotobaCid;
use crate::quad::{ObjectView, Quad, QuadView, Value};

verus! {

/// A datom: entity `e`, attribute `a`, value `v`, transaction (named graph) `tx`.
#[derive(Debug)]
pub struct Datom {
    pub e: KotobaCid,
    pub a: String,
    pub v: Value,
    pub tx: KotobaCid,
}

/// Mathematical model of a datom.
pub struct DatomView {
    pub e: Seq<u8>,
    pub a: Seq<char>,
    pub v: ObjectView,
    pub tx: Seq<u8>,
}

impl View for Datom {
    type V = DatomView;

    open spec fn view(&self) -> DatomView {
        DatomView { e: self.e.0@, a: self.a@, v: self.v@, tx: self.tx.0@ }
    }
}

/// The datom that a quad denotes: subject, predicate, object, graph.
pub open spec fn datom_of_quad(q: QuadView) -> DatomView {
    DatomView { e: q.subject, a: q.predicate, v: q.object, tx: q.graph }
}

/// The quad that a datom denotes.
pub open spec fn quad_of_datom(d: DatomView) -> QuadView {
    QuadView { graph: d.tx, subject: d.e, predicate: d.a, object: d.v }
}

impl Datom {
    /// A datom asserting `v` for attribute `a` of entity `e` in transaction `tx`.
    pub fn new(e: KotobaCid, a: String, v: Value, tx: KotobaCid) -> (d: Datom)
        ensures
            d.e == e,
            d.a == a,
            d.v == v,
            d.tx == tx,
    {
        Datom { e, a, v, tx }
    }

    /// The datom of a quad.
    pub fn from_quad(q: &Quad) -> (d: Datom)
        ensures
            d@ == datom_of_quad(q@),
    {
        Datom { e: q.subject, a: q.predicate.clone(), v: q.object.duplicate(), tx: q.graph }
    }

    /// The quad of this datom.
    pub fn to_quad(&self) -> (q: Quad)
        ensures
            q@ == quad_of_datom(self@),
    {
        Quad { graph: self.tx, subject: self.e, predicate: self.a.clone(), object: self.v.duplicate() }
    }

    /// A copy with the same model.
    pub fn duplicate(&self) -> (r: Datom)
        ensures
            r@ == self@,
    {
        Datom { e: self.e, a: self.a.clone(), v: self.v.duplicate(), tx: self.tx }
    }

    /// Whether two datoms have the same model.
    pub fn same_as(&self, other: &Datom) -> (r: bool)
        ensures
            r == (self@ == other@),
    {
        self.e == other.e && self.a == other.a && self.v.same_as(&other.v) && self.tx == other.tx
    }
}

/// A change to a set of datoms: `added` asserts the datom, otherwise retracts it.
#[derive(Debug)]
pub struct Delta {
    pub datom: Datom,
    pub added: bool,
}

/// Mathematical model of a delta.
pub struct DeltaView {
    pub datom: DatomView,
    pub added: bool,
}

impl View for Delta {
    type V = DeltaView;

    open spec fn view(&self) -> DeltaView {
        DeltaView { datom: self.datom@, added: self.added }
    }
}

/// The models of a slice of deltas.
pub open spec fn deltas_view(ds: Seq<Delta>) -> Seq<DeltaView> {
    Seq::new(ds.len(), |i: int| ds[i]@)
}

impl Delta {
    /// Assertion of a quad.
    pub fn assert_quad(q: Quad) -> (d: Delta)
        ensures
            d@ == (DeltaView { datom: datom_of_quad(q@), added: true }),
    {
        Delta { datom: Datom::from_quad(&q), added: true }
    }

    /// Retraction of a quad.
    pub fn retract(q: Quad) -> (d: Delta)
        ensures
            d@ == (DeltaView { datom: datom_of_quad(q@), added: false }),
    {
        Delta { datom: Datom::from_quad(&q), added: false }
    }

    /// Assertion of a datom.
    pub fn assert_datom(datom: Datom) -> (d: Delta)
        ensures
            d.datom == datom,
            d.added,
    {
        Delta { datom, added: true }
    }

    /// Retraction of a datom.
    pub fn retract_datom(datom: Datom) -> (d: Delta)
        ensures
            d.datom == datom,
            !d.added,
    {
        Delta { datom, added: false }
    }

    /// Whether this delta asserts its datom.
    pub fn is_assert(&self) -> (r: bool)
        ensures
            r == self.added,
    {
        self.added
    }

    /// The attribute of the datom.
    pub fn attribute(&self) -> (r: &str)
        ensures
            r@ == self.datom.a@,
    {
        self.datom.a.as_str()
    }

    /// The entity of the datom.
    pub fn entity(&self) -> (r: &KotobaCid)
        ensures
            *r == self.datom.e,
    {
        &self.datom.e
    }

    /// A copy with the same model.
    pub fn duplicate(&self) -> (r: Delta)
        ensures
            r@ == self@,
    {
        Delta { datom: self.datom.duplicate(), added: self.added }
    }
}

/// Inserting a datom into a set of datoms (held as a duplicate-free sequence).
pub open spec fn insert_view(s: Seq<DatomView>, d: DatomView) -> Seq<DatomView> {
    if s.contains(d) {
        s
    } else {
        s.push(d)
    }
}

/// Removing a datom from a set of datoms (held as a duplicate-free sequence).
pub open spec fn remove_view(s: Seq<DatomView>, d: DatomView) -> Seq<DatomView> {
    if s.contains(d) {
        s.remove(s.index_of(d))
    } else {
        s
    }
}

/// The effect of one delta.
pub open spec fn step_view(s: Seq<DatomView>, d: DeltaView) -> Seq<DatomView> {
    if d.added {
        insert_view(s, d.datom)
    } else {
        remove_view(s, d.datom)
    }
}

/// The effect of a batch of deltas, applied in order.
pub open spec fn apply_view(s: Seq<DatomView>, ds: Seq<DeltaView>) -> Seq<DatomView>
    decreases ds.len(),
{
    if ds.len() == 0 {
        s
    } else {
        step_view(apply_view(s, ds.drop_last()), ds.last())
    }
}

/// The models of a sequence of quads.
pub open spec fn quads_view(qs: Seq<Quad>) -> Seq<QuadView> {
    qs.map_values(|q: Quad| q@)
}

/// The quads of graph `g` among a set of datoms, in order.
pub open spec fn graph_quads(s: Seq<DatomView>, g: Seq<u8>) -> Seq<QuadView>
    decreases s.len(),
{
    if s.len() == 0 {
        Seq::empty()
    } else {
        let r = graph_quads(s.drop_last(), g);
        if s.last().tx == g {
            r.push(quad_of_datom(s.last()))
        } else {
            r
        }
    }
}

/// The arrangement: the set of datoms currently held, in insertion order.
#[derive(Debug)]
pub struct Arrangement {
    datoms: Vec<Datom>,
}

impl View for Arrangement {
    type V = Seq<DatomView>;

    closed spec fn view(&self) -> Seq<DatomView> {
        Seq::new(self.datoms@.len(), |i: int| self.datoms@[i]@)
    }
}

proof fn lemma_insert_no_dup(s: Seq<DatomView>, d: DatomView)
    requires
        s.no_duplicates(),
    ensures
        insert_view(s, d).no_duplicates(),
        insert_view(s, d).contains(d),
        forall|x: DatomView| #[trigger] insert_view(s, d).contains(x) <==> (s.contains(x) || x == d),
{
    let t = insert_view(s, d);
    if !s.contains(d) {
        assert(t[s.len() as int] == d);
        assert forall|x: DatomView| #[trigger] t.contains(x) implies (s.contains(x) || x == d) by {
            let i = choose|i: int| 0 <= i < t.len() && t[i] == x;
            if i < s.len() {
                assert(s[i] == x);
            }
        }
        assert forall|x: DatomView| s.contains(x) implies #[trigger] t.contains(x) by {
            let i = choose|i: int| 0 <= i < s.len() && s[i] == x;
            assert(t[i] == x);
        }
    }
}

proof fn lemma_remove_no_dup(s: Seq<DatomView>, d: DatomView)
    requires
        s.no_duplicates(),
    ensures
        remove_view(s, d).no_duplicates(),
        !remove_view(s, d).contains(d),
        forall|x: DatomView| #[trigger] remove_view(s, d).contains(x) <==> (s.contains(x) && x != d),
{
    if s.contains(d) {
        let k = s.index_of(d);
        let t = s.remove(k);
        s.remove_ensures(k);
        assert forall|x: DatomView| #[trigger] t.contains(x) implies (s.contains(x) && x != d) by {
            let i = choose|i: int| 0 <= i < t.len() && t[i] == x;
            if i < k {
                assert(s[i] == x);
            } else {
                assert(s[i + 1] == x);
            }
        }
        assert forall|x: DatomView| s.contains(x) && x != d implies #[trigger] t.contains(x) by {
            let i = choose|i: int| 0 <= i < s.len() && s[i] == x;
            if i < k {
                assert(t[i] == x);
            } else {
                assert(i != k);
                assert(t[i - 1] == x);
            }
        }
    }
}

impl Arrangement {
    /// No datom is held twice.
    #[verifier::type_invariant]
    spec fn inv(self) -> bool {
        self@.no_duplicates()
    }

    /// An empty arrangement.
    pub fn new() -> (a: Arrangement)
        ensures
            a@ == Seq::<DatomView>::empty(),
            a@.no_duplicates(),
    {
        let a = Arrangement { datoms: Vec::new() };
        assert(a@ =~= Seq::<DatomView>::empty());
        a
    }

    /// Number of datoms held.
    pub fn len(&self) -> (n: usize)
        ensures
            n == self@.len(),
    {
        self.datoms.len()
    }

    /// Whether no datom is held.
    pub fn is_empty(&self) -> (b: bool)
        ensures
            b == (self@.len() == 0),
    {
        self.datoms.len() == 0
    }

    /// The position of a datom, if held.
    fn position(&self, d: &Datom) -> (r: Option<usize>)
        ensures
            match r {
                Some(i) => i < self@.len() && self@[i as int] == d@ && self@.index_of(d@) == i,
                None => !self@.contains(d@),
            },
    {
        proof {
            use_type_invariant(self);
        }
        let mut i: usize = 0;
        while i < self.datoms.len()
            invariant
                i <= self.datoms@.len(),
                self@.len() == self.datoms@.len(),
                self@.no_duplicates(),
                forall|j: int| 0 <= j < i ==> self@[j] != d@,
            decreases self.datoms@.len() - i,
        {
            if self.datoms[i].same_as(d) {
                assert(self@[i as int] == d@);
                proof {
                    let k = self@.index_of(d@);
                    assert(self@.contains(d@));
                    assert(self@[k] == d@);
                    assert(k == i);
                }
                return Some(i);
            }
            i += 1;
        }
        None
    }

    /// Whether a datom is held.
    pub fn contains(&self, d: &Datom) -> (b: bool)
        ensures
            b == self@.contains(d@),
    {
        self.position(d).is_some()
    }

    /// Adds a datom (no effect if already held).
    pub fn insert_datom(&mut self, d: Datom)
        ensures
            final(self)@ == insert_view(old(self)@, d@),
            final(self)@.no_duplicates(),
    {
        proof {
            use_type_invariant(&*self);
            lemma_insert_no_dup(self@, d@);
        }
        if self.position(&d).is_none() {
            let ghost dv = d@;
            let mut v: Vec<Datom> = Vec::new();
            std::mem::swap(&mut v, &mut self.datoms);
            v.push(d);
            proof {
                lemma_insert_no_dup(old(self)@, dv);
                assert(Seq::new(v@.len(), |i: int| v@[i]@) =~= old(self)@.push(dv));
            }
            self.datoms = v;
            assert(self@ =~= old(self)@.push(dv));
        }
    }

    /// Removes a datom (no effect if not held).
    pub fn remove_datom(&mut self, d: &Datom)
        ensures
            final(self)@ == remove_view(old(self)@, d@),
            final(self)@.no_duplicates(),
    {
        proof {
            use_type_invariant(&*self);
            lemma_remove_no_dup(self@, d@);
        }
        match self.position(d) {
            Some(i) => {
                let mut v: Vec<Datom> = Vec::new();
                std::mem::swap(&mut v, &mut self.datoms);
                v.remove(i);
                proof {
                    lemma_remove_no_dup(old(self)@, d@);
                    assert(Seq::new(v@.len(), |j: int| v@[j]@) =~= old(self)@.remove(i as int));
                }
                self.datoms = v;
                assert(self@ =~= old(self)@.remove(i as int));
            },
            None => {},
        }
    }

    /// Adds the datom of a quad.
    pub fn insert(&mut self, q: &Quad)
        ensures
            final(self)@ == insert_view(old(self)@, datom_of_quad(q@)),
            final(self)@.no_duplicates(),
    {
        self.insert_datom(Datom::from_quad(q));
    }

    /// Removes the datom of a quad.
    pub fn remove(&mut self, q: &Quad)
        ensures
            final(self)@ == remove_view(old(self)@, datom_of_quad(q@)),
            final(self)@.no_duplicates(),
    {
        let d = Datom::from_quad(q);
        self.remove_datom(&d);
    }

    /// Applies a batch of deltas in order.
    pub fn apply(&mut self, deltas: &[Delta])
        ensures
            final(self)@ == apply_view(old(self)@, deltas_view(deltas@)),
            final(self)@.no_duplicates(),
    {
        let ghost s0 = self@;
        proof {
            use_type_invariant(&*self);
        }
        for i in 0..deltas.len()
            invariant
                self@.no_duplicates(),
                self@ == apply_view(s0, deltas_view(deltas@.take(i as int))),
        {
            let d = &deltas[i];
            assert(deltas_view(deltas@.take(i + 1)).drop_last() =~= deltas_view(deltas@.take(i as int)));
            if d.added {
                self.insert_datom(d.datom.duplicate());
            } else {
                self.remove_datom(&d.datom);
            }
        }
        assert(deltas@.take(deltas@.len() as int) =~= deltas@);
    }

    /// A copy with the same datoms.
    pub fn duplicate(&self) -> (r: Arrangement)
        ensures
            r@ == self@,
    {
        proof {
            use_type_invariant(self);
        }
        let mut v: Vec<Datom> = Vec::new();
        for i in 0..self.datoms.len()
            invariant
                self@.len() == self.datoms@.len(),
                v@.len() == i,
                forall|j: int| 0 <= j < i ==> (#[trigger] v@[j])@ == self@[j],
        {
            v.push(self.datoms[i].duplicate());
        }
        let r = Arrangement { datoms: v };
        assert(r@ =~= self@);
        r
    }

    /// The quads of one named graph, in insertion order.
    pub fn quads(&self, graph_cid: &KotobaCid) -> (r: Vec<Quad>)
        ensures
            quads_view(r@) == graph_quads(self@, graph_cid.0@),
    {
        let mut r: Vec<Quad> = Vec::new();
        let mut k: usize = 0;
        while k < self.datoms.len()
            invariant
                k <= self.datoms@.len(),
                self@.len() == self.datoms@.len(),
                quads_view(r@) == graph_quads(self@.take(k as int), graph_cid.0@),
            decreases self.datoms@.len() - k,
        {
            let d = &self.datoms[k];
            assert(self@.take(k + 1).drop_last() =~= self@.take(k as int));
            assert(self@[k as int] == d@);
            if d.tx == *graph_cid {
                let q = d.to_quad();
                r.push(q);
            }
            assert(quads_view(r@) =~= graph_quads(self@.take(k + 1), graph_cid.0@));
            k += 1;
        }
        assert(self@.take(k as int) =~= self@);
        r
    }

    /// The datoms of entity `e` in transaction `tx`, in insertion order.
    pub fn get_subject_datoms(&self, tx: &KotobaCid, e: &KotobaCid) -> (r: Vec<Datom>)
        ensures
            datoms_view(r@) == subject_datoms(self@, tx.0@, e.0@),
    {
        let mut r: Vec<Datom> = Vec::new();
        let mut k: usize = 0;
        assert(datoms_view(r@) =~= subject_datoms(self@.take(0), tx.0@, e.0@)) by {
            reveal(Seq::filter);
        }
        while k < self.datoms.len()
            invariant
                k <= self.datoms@.len(),
                self@.len() == self.datoms@.len(),
                datoms_view(r@) == subject_datoms(self@.take(k as int), tx.0@, e.0@),
            decreases self.datoms@.len() - k,
        {
            let d = &self.datoms[k];
            let ghost r0 = r@;
            assert(self@.take(k + 1).drop_last() =~= self@.take(k as int));
            assert(self@[k as int] == d@);
            assert(self@.take(k + 1).last() == d@);
            if d.tx == *tx && d.e == *e {
                r.push(d.duplicate());
                assert(datoms_view(r@) =~= datoms_view(r0).push(d@));
            }
            assert(datoms_view(r@) =~= subject_datoms(self@.take(k + 1), tx.0@, e.0@)) by {
                reveal(Seq::filter);
            }
            k += 1;
        }
        assert(self@.take(k as int) =~= self@);
        r
    }
}

/// The models of datoms.
pub open spec fn datoms_view(ds: Seq<Datom>) -> Seq<DatomView> {
    ds.map_values(|d: Datom| d@)
}

/// The datoms of entity `e` in transaction `tx`, in order.
pub open spec fn subject_datoms(s: Seq<DatomView>, tx: Seq<u8>, e: Seq<u8>) -> Seq<DatomView> {
    s.filter(|d: DatomView| d.tx == tx && d.e == e)
}

/// Asserting a datom that is not held and then retracting it leaves the
/// arrangement as it was.
pub proof fn lemma_assert_then_retract(s: Seq<DatomView>, d: DatomView)
    requires
        s.no_duplicates(),
        !s.contains(d),
    ensures
        remove_view(insert_view(s, d), d) == s,
{
    let t = s.push(d);
    assert(t.contains(d)) by {
        assert(t[s.len() as int] == d);
    }
    let k = t.index_of(d);
    assert(t[k] == d);
    if k < s.len() {
        assert(s[k] == d);
    }
    assert(k == s.len());
    assert(t.remove(k) =~= s);
}

/// Asserting a datom twice has the effect of asserting it once.
pub proof fn lemma_insert_idempotent(s: Seq<DatomView>, d: DatomView)
    requires
        s.no_duplicates(),
    ensures
        insert_view(insert_view(s, d), d) == insert_view(s, d),
{
    lemma_insert_no_dup(s, d);
}

/// The number of datoms grows by one exactly when an asserted datom is new.
pub proof fn lemma_insert_len(s: Seq<DatomView>, d: DatomView)
    ensures
        insert_view(s, d).len() == if s.contains(d) {
            s.len()
        } else {
            s.len() + 1
        },
{
}

} // verus!
