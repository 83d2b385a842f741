//! Datalog rules over datoms, and their incremental evaluation on deltas.
//!
//! A binary relation `R(X, Y)` is held as datoms with attribute `R`, entity
//! `X` and value `Y`. Incremental evaluation propagates each delta through
//! every rule whose body is a single positive binary atom over two distinct
//! variables and whose head uses only those variables; the derived delta keeps
//! the sign and the transaction of the delta it comes from.
use vstd::prelude::*;
use crate::datom::{Datom, DatomView, Delta, DeltaView, deltas_view};
use crate::quad::{ObjectView, QuadObject};

verus! {

/// A rule `head :- body`.
#[derive(Debug)]
pub struct DatalogRule {
    pub head: Atom,
    pub body: Vec<BodyLiteral>,
}

/// A relation applied to terms.
#[derive(Debug)]
pub struct Atom {
    pub relation: String,
    pub args: Vec<Term>,
}

/// A literal of a rule body.
#[derive(Debug)]
pub enum BodyLiteral {
    Positive(Atom),
    /// Stratified negation only.
    Negative(Atom),
    Comparison(Term, CmpOp, Term),
}

/// A variable or a constant.
#[derive(Debug)]
pub enum Term {
    Variable(String),
    Constant(String),
}

/// Comparison operator.
#[derive(Debug, Clone, Copy, PartialEq, Eq, Structural)]
pub enum CmpOp {
    Eq,
    Ne,
    Lt,
    Le,
    Gt,
    Ge,
}

/// Model of a term.
pub enum TermView {
    Variable(Seq<char>),
    Constant(Seq<char>),
}

/// Model of an atom.
pub struct AtomView {
    pub relation: Seq<char>,
    pub args: Seq<TermView>,
}

/// Model of a body literal.
pub enum LiteralView {
    Positive(AtomView),
    Negative(AtomView),
    Comparison(TermView, CmpOp, TermView),
}

/// Model of a rule.
pub struct RuleView {
    pub head: AtomView,
    pub body: Seq<LiteralView>,
}

impl View for Term {
    type V = TermView;

    open spec fn view(&self) -> TermView {
        match self {
            Term::Variable(v) => TermView::Variable(v@),
            Term::Constant(c) => TermView::Constant(c@),
        }
    }
}

impl View for Atom {
    type V = AtomView;

    open spec fn view(&self) -> AtomView {
        AtomView { relation: self.relation@, args: Seq::new(self.args@.len(), |i: int| self.args@[i]@) }
    }
}

impl View for BodyLiteral {
    type V = LiteralView;

    open spec fn view(&self) -> LiteralView {
        match self {
            BodyLiteral::Positive(a) => LiteralView::Positive(a@),
            BodyLiteral::Negative(a) => LiteralView::Negative(a@),
            BodyLiteral::Comparison(l, op, r) => LiteralView::Comparison(l@, *op, r@),
        }
    }
}

impl View for DatalogRule {
    type V = RuleView;

    open spec fn view(&self) -> RuleView {
        RuleView { head: self.head@, body: Seq::new(self.body@.len(), |i: int| self.body@[i]@) }
    }
}

/// The value bound to head variable `h` when body variables `x`, `y` are bound
/// to the entity `e` and the value `v` of a datom.
pub open spec fn bound_value(h: Seq<char>, x: Seq<char>, y: Seq<char>, e: Seq<u8>, v: ObjectView) -> Option<ObjectView> {
    if h == x {
        Some(ObjectView::Cid(e))
    } else if h == y {
        Some(v)
    } else {
        None
    }
}

/// The delta that `rule` derives from delta `d`, if the rule fires on it.
pub open spec fn derive(rule: RuleView, d: DeltaView) -> Option<DeltaView> {
    if rule.body.len() == 1 && rule.body[0] is Positive && rule.head.args.len() == 2
        && rule.head.args[0] is Variable && rule.head.args[1] is Variable {
        let atom = rule.body[0]->Positive_0;
        if atom.args.len() == 2 && atom.args[0] is Variable && atom.args[1] is Variable {
            let x = atom.args[0]->Variable_0;
            let y = atom.args[1]->Variable_0;
            let h0 = rule.head.args[0]->Variable_0;
            let h1 = rule.head.args[1]->Variable_0;
            if x != y && atom.relation == d.datom.a {
                match (bound_value(h0, x, y, d.datom.e, d.datom.v), bound_value(h1, x, y, d.datom.e, d.datom.v)) {
                    (Some(ObjectView::Cid(e2)), Some(v2)) => Some(DeltaView {
                        datom: DatomView { e: e2, a: rule.head.relation, v: v2, tx: d.datom.tx },
                        added: d.added,
                    }),
                    _ => None,
                }
            } else {
                None
            }
        } else {
            None
        }
    } else {
        None
    }
}

/// The deltas that one rule derives from a batch, in batch order.
pub open spec fn derive_all(rule: RuleView, ds: Seq<DeltaView>) -> Seq<DeltaView>
    decreases ds.len(),
{
    if ds.len() == 0 {
        Seq::empty()
    } else {
        derive_all(rule, ds.drop_last()) + match derive(rule, ds.last()) {
            Some(o) => seq![o],
            None => Seq::empty(),
        }
    }
}

/// The deltas that a program derives from a batch: rule by rule, in rule order.
pub open spec fn evaluate(rules: Seq<RuleView>, ds: Seq<DeltaView>) -> Seq<DeltaView>
    decreases rules.len(),
{
    if rules.len() == 0 {
        Seq::empty()
    } else {
        evaluate(rules.drop_last(), ds) + derive_all(rules.last(), ds)
    }
}

/// A Datalog program: a list of rules.
#[derive(Debug)]
pub struct DatalogProgram {
    pub rules: Vec<DatalogRule>,
}

impl View for DatalogProgram {
    type V = Seq<RuleView>;

    open spec fn view(&self) -> Seq<RuleView> {
        Seq::new(self.rules@.len(), |i: int| self.rules@[i]@)
    }
}

fn variable_name(t: &Term) -> (r: Option<&String>)
    ensures
        match t@ {
            TermView::Variable(v) => r matches Some(s) && s@ == v,
            _ => r is None,
        },
{
    match t {
        Term::Variable(v) => Some(v),
        Term::Constant(_) => None,
    }
}

fn bind(h: &String, x: &String, y: &String, d: &Datom) -> (r: Option<QuadObject>)
    ensures
        match bound_value(h@, x@, y@, d@.e, d@.v) {
            Some(o) => r matches Some(q) && q@ == o,
            None => r is None,
        },
{
    if *h == *x {
        Some(QuadObject::Cid(d.e))
    } else if *h == *y {
        Some(d.v.duplicate())
    } else {
        None
    }
}

impl DatalogRule {
    /// The delta this rule derives from `d`, if it fires.
    pub fn derive(&self, d: &Delta) -> (r: Option<Delta>)
        ensures
            match derive(self@, d@) {
                Some(o) => r matches Some(x) && x@ == o,
                None => r is None,
            },
    {
        if self.body.len() != 1 || self.head.args.len() != 2 {
            return None;
        }
        let atom = match &self.body[0] {
            BodyLiteral::Positive(a) => a,
            _ => {
                return None;
            },
        };
        if atom.args.len() != 2 {
            return None;
        }
        let h0 = match variable_name(&self.head.args[0]) {
            Some(s) => s,
            None => {
                return None;
            },
        };
        let h1 = match variable_name(&self.head.args[1]) {
            Some(s) => s,
            None => {
                return None;
            },
        };
        let x = match variable_name(&atom.args[0]) {
            Some(s) => s,
            None => {
                return None;
            },
        };
        let y = match variable_name(&atom.args[1]) {
            Some(s) => s,
            None => {
                return None;
            },
        };
        assert(self@.body[0] == self.body@[0]@);
        assert(self@.head.args[0] == self.head.args@[0]@);
        assert(self@.head.args[1] == self.head.args@[1]@);
        assert(atom@.args[0] == atom.args@[0]@);
        assert(atom@.args[1] == atom.args@[1]@);
        if *x == *y || atom.relation != d.datom.a {
            return None;
        }
        let e2 = match bind(h0, x, y, &d.datom) {
            Some(QuadObject::Cid(c)) => c,
            _ => {
                return None;
            },
        };
        let v2 = match bind(h1, x, y, &d.datom) {
            Some(o) => o,
            None => {
                return None;
            },
        };
        Some(Delta {
            datom: Datom { e: e2, a: self.head.relation.clone(), v: v2, tx: d.datom.tx },
            added: d.added,
        })
    }
}

impl DatalogProgram {
    /// A program without rules.
    pub fn new() -> (p: DatalogProgram)
        ensures
            p@ == Seq::<RuleView>::empty(),
    {
        let p = DatalogProgram { rules: Vec::new() };
        assert(p@ =~= Seq::<RuleView>::empty());
        p
    }

    /// Appends a rule.
    pub fn add_rule(&mut self, rule: DatalogRule)
        ensures
            final(self)@ == old(self)@.push(rule@),
    {
        let ghost rv = rule@;
        self.rules.push(rule);
        assert(self@ =~= old(self)@.push(rv));
    }

    /// Incremental evaluation: the deltas derived from a batch of input deltas.
    pub fn evaluate_delta(&self, deltas: &[Delta]) -> (out: Vec<Delta>)
        ensures
            deltas_view(out@) == evaluate(self@, deltas_view(deltas@)),
    {
        let ghost ds = deltas_view(deltas@);
        let mut out: Vec<Delta> = Vec::new();
        let mut k: usize = 0;
        while k < self.rules.len()
            invariant
                k <= self.rules@.len(),
                ds == deltas_view(deltas@),
                deltas_view(out@) == evaluate(self@.take(k as int), ds),
            decreases self.rules@.len() - k,
        {
            let rule = &self.rules[k];
            let ghost base = deltas_view(out@);
            let mut i: usize = 0;
            while i < deltas.len()
                invariant
                    i <= deltas@.len(),
                    ds == deltas_view(deltas@),
                    deltas_view(out@) == base + derive_all(rule@, ds.take(i as int)),
                decreases deltas@.len() - i,
            {
                let ghost before = out@;
                assert(ds.take(i + 1).drop_last() =~= ds.take(i as int));
                assert(ds.take(i + 1).last() == deltas@[i as int]@);
                match rule.derive(&deltas[i]) {
                    Some(o) => {
                        out.push(o);
                        assert(deltas_view(out@) =~= deltas_view(before) + seq![o@]);
                    },
                    None => {},
                }
                i += 1;
            }
            assert(ds.take(deltas@.len() as int) =~= ds);
            assert(self@.take(k + 1).drop_last() =~= self@.take(k as int));
            assert(self@.take(k + 1).last() == rule@);
            k += 1;
        }
        assert(self@.take(self@.len() as int) =~= self@);
        out
    }
}

} // verus!
