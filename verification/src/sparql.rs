//! SPARQL basic graph patterns and their Datalog atoms.
use vstd::prelude::*;
use crate::text::{push_str_chars, string_from_chars};

verus! {

/// A SPARQL query: basic graph pattern and filter expressions.
pub struct SparqlQuery {
    pub bgp: Vec<TriplePattern>,
    pub filters: Vec<String>,
}

/// One triple of a basic graph pattern.
pub struct TriplePattern {
    pub subject: VarOrTerm,
    pub predicate: VarOrTerm,
    pub object: VarOrTerm,
}

/// A position of a triple pattern.
pub enum VarOrTerm {
    Variable(String),
    Iri(String),
    Literal(String),
}

/// The `Debug` text of a string (`format!("{:?}", s)`): quoted and escaped.
pub uninterp spec fn debug_str(s: Seq<char>) -> Seq<char>;

/// Formats a string with `Debug`; the contract names the text.
#[verifier::external_body]
pub(crate) fn debug_quoted(s: &str) -> (r: String)
    ensures
        r@ == debug_str(s@),
{
    format!("{:?}", s)
}

/// How a position is written in an atom: a variable by its name, an IRI or
/// a literal quoted.
pub open spec fn term_text(t: VarOrTerm) -> Seq<char> {
    match t {
        VarOrTerm::Variable(v) => v@,
        VarOrTerm::Iri(i) => debug_str(i@),
        VarOrTerm::Literal(l) => debug_str(l@),
    }
}

/// The atom of a triple pattern: `quad(G, <s>, <p>, <o>)`.
pub open spec fn pattern_atom(tp: TriplePattern) -> Seq<char> {
    "quad(G, "@ + term_text(tp.subject) + ", "@ + term_text(tp.predicate) + ", "@ + term_text(
        tp.object,
    ) + ")"@
}

/// The text of a position.
pub fn term_str(t: &VarOrTerm) -> (s: String)
    ensures
        s@ == term_text(*t),
{
    match t {
        VarOrTerm::Variable(v) => v.clone(),
        VarOrTerm::Iri(i) => debug_quoted(i.as_str()),
        VarOrTerm::Literal(l) => debug_quoted(l.as_str()),
    }
}

impl SparqlQuery {
    /// One `quad(G, s, p, o)` atom per triple pattern, in order.
    pub fn to_datalog_atoms(&self) -> (r: Vec<String>)
        ensures
            r@.len() == self.bgp@.len(),
            forall|i: int| 0 <= i < r@.len() ==> (#[trigger] r@[i])@ == pattern_atom(self.bgp@[i]),
    {
        let mut r: Vec<String> = Vec::new();
        for i in 0..self.bgp.len()
            invariant
                r@.len() == i,
                forall|k: int| 0 <= k < i ==> (#[trigger] r@[k])@ == pattern_atom(self.bgp@[k]),
        {
            let tp = &self.bgp[i];
            let mut out: Vec<char> = Vec::new();
            push_str_chars(&mut out, "quad(G, ");
            push_str_chars(&mut out, term_str(&tp.subject).as_str());
            push_str_chars(&mut out, ", ");
            push_str_chars(&mut out, term_str(&tp.predicate).as_str());
            push_str_chars(&mut out, ", ");
            push_str_chars(&mut out, term_str(&tp.object).as_str());
            push_str_chars(&mut out, ")");
            let a = string_from_chars(&out);
            assert(a@ =~= pattern_atom(*tp));
            r.push(a);
        }
        r
    }
}

} // verus!
