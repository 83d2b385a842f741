//! Warrants: signed proofs that a chain entry broke a validation rule.
use vstd::prelude::*;
use crate::cid::KotobaCid;

verus! {

/// Signed proof of an invalid chain entry; gossiped to evict a peer.
#[derive(Debug)]
pub struct Warrant {
    /// Node identifier of the accused peer.
    pub accused: Vec<u8>,
    /// Identifier of the invalid entry.
    pub evidence: KotobaCid,
    /// Code of the rule that failed (see `ValidationRule::code`).
    pub rule_id: u8,
    /// Node identifier of the detecting peer.
    pub validator: Vec<u8>,
    pub ts: u64,
    /// Validator's Ed25519 signature.
    pub sig: Vec<u8>,
}

/// The validation rules an entry can break.
#[derive(Debug, Clone, Copy, PartialEq, Eq, Structural)]
pub enum ValidationRule {
    InvalidSignature,
    SeqBreak,
    PrevMismatch,
    CacaoInvalid,
    ProllyInconsistent,
    MaxStepsExceeded,
    /// A re-key grant was revoked by its owner; peers drop the cached grant.
    RekeyRevoked,
}

/// The stable wire code of a rule.
pub open spec fn rule_code(r: ValidationRule) -> u8 {
    match r {
        ValidationRule::InvalidSignature => 1,
        ValidationRule::SeqBreak => 2,
        ValidationRule::PrevMismatch => 3,
        ValidationRule::CacaoInvalid => 4,
        ValidationRule::ProllyInconsistent => 5,
        ValidationRule::MaxStepsExceeded => 6,
        ValidationRule::RekeyRevoked => 7,
    }
}

impl ValidationRule {
    /// The stable wire code of this rule (1 to 7).
    pub fn code(&self) -> (c: u8)
        ensures
            c == rule_code(*self),
    {
        match self {
            ValidationRule::InvalidSignature => 1,
            ValidationRule::SeqBreak => 2,
            ValidationRule::PrevMismatch => 3,
            ValidationRule::CacaoInvalid => 4,
            ValidationRule::ProllyInconsistent => 5,
            ValidationRule::MaxStepsExceeded => 6,
            ValidationRule::RekeyRevoked => 7,
        }
    }

    /// The rule with a given wire code.
    pub fn from_code(c: u8) -> (r: Option<ValidationRule>)
        ensures
            match r {
                Some(rule) => rule_code(rule) == c,
                None => c < 1 || c > 7,
            },
    {
        match c {
            1 => Some(ValidationRule::InvalidSignature),
            2 => Some(ValidationRule::SeqBreak),
            3 => Some(ValidationRule::PrevMismatch),
            4 => Some(ValidationRule::CacaoInvalid),
            5 => Some(ValidationRule::ProllyInconsistent),
            6 => Some(ValidationRule::MaxStepsExceeded),
            7 => Some(ValidationRule::RekeyRevoked),
            _ => None,
        }
    }
}

/// Distinct rules have distinct codes.
pub proof fn lemma_codes_distinct(a: ValidationRule, b: ValidationRule)
    requires
        rule_code(a) == rule_code(b),
    ensures
        a == b,
{
}

} // verus!
