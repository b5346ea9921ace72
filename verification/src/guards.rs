//! Exhaustiveness of guards. Whether the disjunction of the conditions is a
//! tautology is a question for an SMT solver; what the checks decide around
//! its answer is here.

use vstd::prelude::*;

use crate::ast::Span;
use crate::tast::TypedGuardClause;
use crate::text::owned;
use crate::ty::string_clone;

verus! {

/// The solver's answer on a property: proven (its negation is
/// unsatisfiable), refuted (a counter-example exists), or undecided.
#[derive(Clone, Copy, Debug, PartialEq, Eq, Structural)]
pub enum Ternary {
    Proven,
    Refuted,
    Unknown,
}

/// Why the guards of a clause are rejected.
pub enum GuardError {
    /// The guards miss a case; `missing` shows one.
    NonExhaustiveMatch { missing: Vec<String>, span: Span, hint: Option<String> },
    /// The solver could not decide: an `otherwise` is required.
    MissingOtherwise { span: Span },
}

/// Some guard is `otherwise`.
pub open spec fn has_otherwise(guards: Seq<TypedGuardClause>) -> bool {
    exists|i: int| 0 <= i < guards.len() && (#[trigger] guards[i]).condition is None
}

/// The hint given with a guard set that misses a case.
pub open spec fn non_exhaustive_hint() -> Seq<char> {
    "guards não cobrem todos os casos. Adicione um guard ou use `otherwise:` como fallback"@
}

/// What a check of exhaustiveness answers once the solver has answered
/// `outcome` on the disjunction of the conditions (and, on a refutation,
/// shown `counter_example`).
pub open spec fn guard_verdict_ok(outcome: Ternary) -> bool {
    outcome == Ternary::Proven
}

/// `r` is the error for a solver answer `outcome` that is not a proof.
pub open spec fn is_guard_error(r: GuardError, outcome: Ternary, counter_example: Seq<char>, span: Span) -> bool {
    match r {
        GuardError::NonExhaustiveMatch { missing, span: s, hint } => {
            &&& outcome == Ternary::Refuted
            &&& missing@.len() == 1
            &&& missing@[0]@ == counter_example
            &&& s == span
            &&& hint matches Some(h) && h@ == non_exhaustive_hint()
        },
        GuardError::MissingOtherwise { span: s } => outcome == Ternary::Unknown && s == span,
    }
}

fn any_otherwise(guards: &Vec<TypedGuardClause>) -> (r: bool)
    ensures
        r == has_otherwise(guards@),
{
    let mut i: usize = 0;
    while i < guards.len()
        invariant
            i <= guards@.len(),
            forall|j: int| 0 <= j < i ==> (#[trigger] guards@[j]).condition is Some,
        decreases guards@.len() - i,
    {
        if guards[i].condition.is_none() {
            assert(guards@[i as int].condition is None);
            return true;
        }
        i += 1;
    }
    false
}

fn verdict(outcome: Ternary, counter_example: &String, span: Span) -> (r: Result<(), GuardError>)
    ensures
        match r {
            Ok(()) => guard_verdict_ok(outcome),
            Err(e) => is_guard_error(e, outcome, counter_example@, span),
        },
{
    match outcome {
        Ternary::Proven => Ok(()),
        Ternary::Refuted => {
            let mut missing: Vec<String> = Vec::new();
            missing.push(string_clone(counter_example));
            Err(
                GuardError::NonExhaustiveMatch {
                    missing,
                    span,
                    hint: Some(
                        owned(
                            "guards não cobrem todos os casos. Adicione um guard ou use `otherwise:` como fallback",
                        ),
                    ),
                },
            )
        },
        Ternary::Unknown => Err(GuardError::MissingOtherwise { span }),
    }
}

/// Checks that the guards of one clause cover every case. An `otherwise`,
/// or no guard at all, needs no proof; otherwise `outcome` is the solver's
/// answer on the disjunction of the conditions, and `counter_example` the
/// case it shows when it refutes it.
pub fn check_guard_completeness(
    guards: &Vec<TypedGuardClause>,
    span: Span,
    outcome: Ternary,
    counter_example: &String,
) -> (r: Result<(), GuardError>)
    ensures
        has_otherwise(guards@) || guards@.len() == 0 ==> r is Ok,
        !(has_otherwise(guards@) || guards@.len() == 0) ==> match r {
            Ok(()) => guard_verdict_ok(outcome),
            Err(e) => is_guard_error(e, outcome, counter_example@, span),
        },
{
    if any_otherwise(guards) {
        return Ok(());
    }
    if guards.len() == 0 {
        return Ok(());
    }
    verdict(outcome, counter_example, span)
}

/// Decides whether clause N is redundant given clause M: `outcome` is the
/// solver's answer on "the guards of N imply those of M". A clause with no
/// condition and no `otherwise` is never redundant by its guards.
pub fn check_guard_implication(
    guards_n: &Vec<TypedGuardClause>,
    outcome: Ternary,
) -> (r: bool)
    ensures
        r == (guards_n@.len() > 0 && outcome == Ternary::Proven),
{
    if guards_n.len() == 0 {
        return false;
    }
    match outcome {
        Ternary::Proven => true,
        _ => false,
    }
}

/// Some arm has an `otherwise` guard.
pub open spec fn arms_have_otherwise(arms: Seq<Vec<TypedGuardClause>>) -> bool {
    exists|i: int| 0 <= i < arms.len() && has_otherwise(#[trigger] arms[i]@)
}

/// Some arm has a guard.
pub open spec fn arms_have_guards(arms: Seq<Vec<TypedGuardClause>>) -> bool {
    exists|i: int| 0 <= i < arms.len() && (#[trigger] arms[i]@).len() > 0
}

/// Checks that the guards of several arms together cover every case: an
/// `otherwise` in any arm, or no guard in any arm, needs no proof;
/// otherwise `outcome` answers on the disjunction of all the conditions.
pub fn check_guard_coverage(
    arms: &Vec<Vec<TypedGuardClause>>,
    span: Span,
    outcome: Ternary,
    counter_example: &String,
) -> (r: Result<(), GuardError>)
    ensures
        arms_have_otherwise(arms@) || !arms_have_guards(arms@) ==> r is Ok,
        !(arms_have_otherwise(arms@) || !arms_have_guards(arms@)) ==> match r {
            Ok(()) => guard_verdict_ok(outcome),
            Err(e) => is_guard_error(e, outcome, counter_example@, span),
        },
{
    let mut any_guard = false;
    let mut i: usize = 0;
    while i < arms.len()
        invariant
            i <= arms@.len(),
            forall|j: int| 0 <= j < i ==> !has_otherwise(#[trigger] arms@[j]@),
            any_guard == exists|j: int| 0 <= j < i && (#[trigger] arms@[j]@).len() > 0,
        decreases arms@.len() - i,
    {
        if any_otherwise(&arms[i]) {
            assert(has_otherwise(arms@[i as int]@));
            return Ok(());
        }
        if arms[i].len() > 0 {
            any_guard = true;
        }
        proof {
            if arms@[i as int]@.len() > 0 {
                assert(exists|j: int| 0 <= j < i + 1 && (#[trigger] arms@[j]@).len() > 0);
            }
        }
        i += 1;
    }
    if !any_guard {
        return Ok(());
    }
    verdict(outcome, counter_example, span)
}

} // verus!
