//! The operand-range rule: a validated half-open interval and the
//! sampling of operand pairs from it.

use vstd::prelude::*;
use rand::Rng;

verus! {

/// Why a range rule (or a settings entry) is rejected at construction.
#[derive(Clone, Copy, Debug, PartialEq, Eq, Structural)]
pub enum RuleError {
    InvalidProbabilities,
    InvalidRange,
}

/// A validated sampling interval: operands are drawn from
/// `[spec_from(), spec_to())`.
#[derive(Clone, Copy, Debug)]
pub struct RandRule {
    from: u64,
    to: u64,
}

/// Relies on `rand::Rng::gen_range` over the half-open range
/// `from..to`: the sample lies in the range. It panics on an empty
/// range, which the precondition rules out.
#[verifier::external_body]
fn rand_in_range(from: u64, to: u64) -> (r: u64)
    requires
        from < to,
    ensures
        from <= r < to,
{
    rand::thread_rng().gen_range(from..to)
}

impl RandRule {
    /// The lower bound of the interval.
    pub closed spec fn spec_from(&self) -> u64 {
        self.from
    }

    /// The exclusive upper bound of the interval.
    pub closed spec fn spec_to(&self) -> u64 {
        self.to
    }

    /// A rule is valid exactly when `to > from > 0`: zero, inverted and
    /// degenerate intervals are rejected at construction.
    pub open spec fn valid(&self) -> bool {
        self.spec_to() > self.spec_from() && self.spec_from() > 0
    }

    /// Builds a rule over `[from, to)`, rejecting any bounds with
    /// `InvalidRange` unless `to > from > 0`.
    pub fn new(from: u64, to: u64) -> (r: Result<RandRule, RuleError>)
        ensures
            r is Ok <==> (to > from && from > 0),
            r is Ok ==> r.unwrap().spec_from() == from && r.unwrap().spec_to() == to,
            r is Err ==> r.unwrap_err() == RuleError::InvalidRange,
    {
        let rng = RandRule { from, to };
        match rng.check() {
            Ok(()) => Ok(rng),
            Err(e) => Err(e),
        }
    }

    /// Revalidates the bounds: `Ok` exactly on a valid rule.
    pub fn check(&self) -> (r: Result<(), RuleError>)
        ensures
            r is Ok <==> self.valid(),
            r is Err ==> r.unwrap_err() == RuleError::InvalidRange,
    {
        if !self.valid_range() {
            return Err(RuleError::InvalidRange);
        }
        Ok(())
    }

    /// Draws two operands, each uniformly from `[spec_from(), spec_to())`;
    /// the upper bound itself is never produced. Each call draws fresh
    /// randomness; two calls on the same rule may differ.
    pub fn generate(&self) -> (r: (u64, u64))
        requires
            self.valid(),
        ensures
            self.spec_from() <= r.0 < self.spec_to(),
            self.spec_from() <= r.1 < self.spec_to(),
    {
        let a = rand_in_range(self.from, self.to);
        let b = rand_in_range(self.from, self.to);
        (a, b)
    }

    /// Whether the bounds satisfy `to > from > 0`.
    fn valid_range(&self) -> (r: bool)
        ensures
            r == self.valid(),
    {
        self.to > self.from && self.from > 0
    }
}

} // verus!
