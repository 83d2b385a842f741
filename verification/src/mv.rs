//! Materialized views: incrementally maintained Datalog query results.
use vstd::prelude::*;
use crate::datalog::{DatalogProgram, RuleView, derive_all, evaluate};
use crate::datom::{Arrangement, DatomView, Delta, DeltaView, apply_view, deltas_view};

verus! {

/// A materialized view: a named program and the datoms it has seen.
pub struct MaterializedView {
    pub name: String,
    pub program: DatalogProgram,
    pub state: Arrangement,
}

impl MaterializedView {
    /// A view with an empty state.
    pub fn new(name: &str, program: DatalogProgram) -> (mv: MaterializedView)
        ensures
            mv.name@ == name@,
            mv.program == program,
            mv.state@ == Seq::<DatomView>::empty(),
    {
        MaterializedView { name: name.to_owned(), program, state: Arrangement::new() }
    }

    /// Applies a batch of deltas to the state and returns the deltas that the
    /// program derives from the batch.
    pub fn apply(&mut self, deltas: &[Delta]) -> (out: Vec<Delta>)
        ensures
            final(self).name == old(self).name,
            final(self).program == old(self).program,
            final(self).state@ == apply_view(old(self).state@, deltas_view(deltas@)),
            final(self).state@.no_duplicates(),
            deltas_view(out@) == evaluate(old(self).program@, deltas_view(deltas@)),
    {
        self.state.apply(deltas);
        self.program.evaluate_delta(deltas)
    }
}

/// A program without rules derives nothing, whatever the batch.
pub proof fn lemma_no_rules_derive_nothing(ds: Seq<DeltaView>)
    ensures
        evaluate(Seq::<RuleView>::empty(), ds) == Seq::<DeltaView>::empty(),
{
}

/// An empty batch derives nothing, whatever the program.
pub proof fn lemma_empty_batch_derives_nothing(rules: Seq<RuleView>)
    ensures
        evaluate(rules, Seq::<DeltaView>::empty()) == Seq::<DeltaView>::empty(),
    decreases rules.len(),
{
    if rules.len() > 0 {
        lemma_empty_batch_derives_nothing(rules.drop_last());
        assert(derive_all(rules.last(), Seq::<DeltaView>::empty()) == Seq::<DeltaView>::empty());
        assert(Seq::<DeltaView>::empty() + Seq::<DeltaView>::empty() =~= Seq::<DeltaView>::empty());
    }
}

/// An empty batch leaves the state as it was.
pub proof fn lemma_empty_batch_keeps_state(s: Seq<DatomView>)
    ensures
        apply_view(s, Seq::<DeltaView>::empty()) == s,
{
}

} // verus!
