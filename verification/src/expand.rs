//! The construct synthesizer: from the parsed triple — pattern, scrutinee,
//! fallback — to the replacement statement, and a runner that gives the
//! synthesized statement's behaviour on a scrutinee value.
//!
//! The replacement statement reads
//! `let (b1, b2, ...) = match scrutinee { pat => (b1, b2, ...), ... };`:
//! its left-hand side is the tuple of collected bindings, each with its
//! recorded qualifier; the success arm is the original pattern, unmodified,
//! with the same tuple as body; the failure side is either one implicit
//! wildcard arm running the `else` expression (which the caller must make
//! diverge), or the caller's explicit arms, appended verbatim. With zero
//! bindings both tuples are empty and the statement is a pure
//! success/failure gate. The scrutinee is embedded once as the single
//! subject of the match, so it is evaluated exactly once.

use vstd::prelude::*;
use crate::analyze::{collect_bindings, models_of};
use crate::matching::{match_pattern, match_vals};
use crate::pattern::{Binding, Pattern, bindings_of};
use crate::value::{Value, values_model};

verus! {

/// An opaque host expression, carried as the source text it was written
/// with; the expander never looks inside it.
#[derive(Debug, PartialEq)]
pub struct Expr {
    pub text: String,
}

/// One explicit failure arm of the match-arms form: its own pattern, an
/// optional guard expression and its body, all preserved verbatim. Guards
/// and bodies are opaque host expressions; the host evaluates them.
#[derive(Debug, PartialEq)]
pub struct MatchArm {
    pub pat: Pattern,
    pub guard: Option<Expr>,
    pub body: Expr,
}

/// The failure side of the construct: either a single `else` expression,
/// required by the caller to diverge, or explicit match arms appended
/// after the success arm.
#[derive(Debug, PartialEq)]
pub enum Fallback {
    Else(Expr),
    Arms(Vec<MatchArm>),
}

/// The replacement statement, as synthesized: the collected bindings (the
/// tuple on both sides of the match), the original pattern of the success
/// arm, the scrutinee, and the failure side.
#[derive(Debug, PartialEq)]
pub struct Expansion {
    pub bindings: Vec<Binding>,
    pub pat: Pattern,
    pub scrutinee: Expr,
    pub fallback: Fallback,
}

/// The construct synthesizer: lays the parts into the replacement
/// statement without altering any of them. The pattern stands in the
/// success arm exactly as written, the scrutinee is the match subject, the
/// fallback is kept verbatim, and the binding tuple is exactly the
/// analyzer's list.
pub fn synthesize(pat: Pattern, scrutinee: Expr, bindings: Vec<Binding>, fallback: Fallback) -> (e:
    Expansion)
    requires
        models_of(bindings@) == bindings_of(pat),
    ensures
        e.pat == pat,
        e.scrutinee == scrutinee,
        e.fallback == fallback,
        e.bindings == bindings,
        models_of(e.bindings@) == bindings_of(e.pat),
{
    Expansion { bindings, pat, scrutinee, fallback }
}

/// The expansion entry point: analyze the pattern, then synthesize the
/// replacement statement. The result's binding tuple is exactly
/// `bindings_of` of the pattern, and pattern, scrutinee and fallback pass
/// through unchanged.
pub fn try_let(pat: Pattern, scrutinee: Expr, fallback: Fallback) -> (e: Expansion)
    ensures
        e.pat == pat,
        e.scrutinee == scrutinee,
        e.fallback == fallback,
        models_of(e.bindings@) == bindings_of(e.pat),
{
    let bindings = collect_bindings(&pat);
    synthesize(pat, scrutinee, bindings, fallback)
}

/// How one evaluation of the synthesized statement ends.
#[derive(Debug, PartialEq)]
pub enum Outcome {
    /// The success arm matched: the sub-values bound, one per collected
    /// binding, in the analyzer's order.
    Bound { values: Vec<Value> },
    /// Else form, and the pattern failed: the wildcard arm runs the
    /// fallback expression once; no binding is produced (the fallback must
    /// diverge, which the host, not this expander, enforces).
    FallbackRun,
    /// Arms form, and the pattern failed: the first explicit arm whose own
    /// pattern matches is taken, with the sub-values its bindings receive.
    /// A kept guard is the host's to evaluate; the selection here is the
    /// host's for guard-free arms.
    ArmTaken { index: usize, values: Vec<Value> },
    /// Arms form, and no arm matched: the synthesized match is
    /// non-exhaustive on this value and the host reports it.
    NoArm,
}

/// What a correct outcome of the explicit arms is, once the success
/// pattern has failed: the first arm whose pattern matches, with its bound
/// sub-values, or the finding that none matches.
pub open spec fn arms_outcome(arms: Seq<MatchArm>, v: crate::value::ValueModel, o: Outcome) -> bool {
    match o {
        Outcome::ArmTaken { index, values } => {
            &&& 0 <= index < arms.len()
            &&& match_vals(arms[index as int].pat, v) matches Some(s) && values_model(values@)
                == s
            &&& forall|k: int| 0 <= k < index ==> match_vals(arms[k].pat, v) is None
        },
        Outcome::NoArm => forall|k: int|
            0 <= k < arms.len() ==> match_vals(arms[k].pat, v) is None,
        _ => false,
    }
}

/// Runs the synthesized statement on a scrutinee value: when the value
/// fits the pattern, the outcome is the bound sub-values, one per
/// collected binding, in the analyzer's order, and the fallback is not
/// touched; when it does not, the else expression runs (else form), or the
/// explicit arms are tried in order and only then (arms form).
pub fn run_expansion(e: &Expansion, v: &Value) -> (o: Outcome)
    ensures
        (match_vals(e.pat, v@) matches Some(s) ==> (o matches Outcome::Bound { values }
            && values_model(values@) == s)),
        match_vals(e.pat, v@) is None ==> (match e.fallback {
            Fallback::Else(_) => o == Outcome::FallbackRun,
            Fallback::Arms(arms) => arms_outcome(arms@, v@, o),
        }),
{
    match match_pattern(&e.pat, v) {
        Some(values) => Outcome::Bound { values },
        None => {
            match &e.fallback {
                Fallback::Else(_) => Outcome::FallbackRun,
                Fallback::Arms(arms) => {
                    let n = arms.len();
                    for i in 0..n
                        invariant
                            n == arms.len(),
                            match_vals(e.pat, v@) is None,
                            e.fallback == (Fallback::Arms(*arms)),
                            forall|k: int|
                                0 <= k < i ==> match_vals((#[trigger] arms@[k]).pat, v@)
                                    is None,
                        decreases n - i,
                    {
                        match match_pattern(&arms[i].pat, v) {
                            Some(values) => {
                                return Outcome::ArmTaken { index: i, values };
                            },
                            None => {},
                        }
                    }
                    Outcome::NoArm
                },
            }
        },
    }
}

/// The round trip of one expansion: when the scrutinee value fits the
/// pattern, the matched sub-values are one per collected binding, so the
/// synthesized statement destructures its tuple exactly and binds the i-th
/// identifier to the i-th matched sub-value; the fallback plays no part.
pub proof fn lemma_round_trip(e: Expansion, v: crate::value::ValueModel)
    requires
        models_of(e.bindings@) == bindings_of(e.pat),
        match_vals(e.pat, v) is Some,
    ensures
        match_vals(e.pat, v)->Some_0.len() == e.bindings@.len(),
{
    crate::matching::lemma_match_binds_all(e.pat, v);
}

/// Expansion is deterministic: the contract of `try_let` pins every part
/// of its result as a function of the triple alone, so any two expansions
/// of the same triple are structurally identical — no hidden counter or
/// freshness state can change the set or order of the bindings.
pub proof fn lemma_expansion_deterministic(
    pat: Pattern,
    scrutinee: Expr,
    fallback: Fallback,
    e1: Expansion,
    e2: Expansion,
)
    requires
        e1.pat == pat,
        e1.scrutinee == scrutinee,
        e1.fallback == fallback,
        models_of(e1.bindings@) == bindings_of(pat),
        e2.pat == pat,
        e2.scrutinee == scrutinee,
        e2.fallback == fallback,
        models_of(e2.bindings@) == bindings_of(pat),
    ensures
        e1.pat == e2.pat,
        e1.scrutinee == e2.scrutinee,
        e1.fallback == e2.fallback,
        models_of(e1.bindings@) == models_of(e2.bindings@),
{
}

} // verus!
