//! Capability-based tool selection: how a tool is classified against the requirements of
//! a search, once it is known which requirements the tool satisfies.
use vstd::prelude::*;

pub mod discovery;

verus! {

/// How a tool fares against selection criteria.
#[derive(Debug, Clone, Copy, PartialEq, Eq, Structural)]
pub enum ToolMatch {
    /// More than half of the requirement weight is satisfied.
    Matching,
    /// Some, but at most half, of the requirement weight is satisfied.
    Partial,
    /// Disqualified, or nothing satisfied.
    Rejected,
}

/// One requirement as seen by one tool: whether it is required, and whether the tool
/// satisfies it.
#[derive(Debug, Clone, Copy, PartialEq, Eq, Structural)]
pub struct RequirementCheck {
    pub required: bool,
    pub satisfied: bool,
}

/// The weight of a requirement in half units: two for a required one, one for a preferred
/// one.
pub open spec fn weight(c: RequirementCheck) -> nat {
    if c.required { 2 } else { 1 }
}

/// Total weight of the requirements, in half units.
pub open spec fn total_weight(cs: Seq<RequirementCheck>) -> nat
    decreases cs.len(),
{
    if cs.len() == 0 {
        0
    } else {
        total_weight(cs.drop_last()) + weight(cs.last())
    }
}

/// Weight of the satisfied requirements, in half units.
pub open spec fn satisfied_weight(cs: Seq<RequirementCheck>) -> nat
    decreases cs.len(),
{
    if cs.len() == 0 {
        0
    } else {
        satisfied_weight(cs.drop_last()) + if cs.last().satisfied { weight(cs.last()) } else { 0 }
    }
}

/// Whether some required requirement is not satisfied.
pub open spec fn fails_required(cs: Seq<RequirementCheck>) -> bool {
    exists|i: int| 0 <= i < cs.len() && #[trigger] cs[i].required && !cs[i].satisfied
}

/// The classification of a tool: rejected when it fails a required capability, lacks a
/// required tag or has an excluded tag; with no requirements every other tool matches;
/// otherwise it matches when the satisfied weight is more than half the total, and is a
/// partial match when it is positive.
pub open spec fn tool_match(cs: Seq<RequirementCheck>, has_required_tags: bool, has_excluded_tags: bool) -> ToolMatch {
    if fails_required(cs) || !has_required_tags || has_excluded_tags {
        ToolMatch::Rejected
    } else if cs.len() == 0 {
        ToolMatch::Matching
    } else if 2 * satisfied_weight(cs) > total_weight(cs) {
        ToolMatch::Matching
    } else if satisfied_weight(cs) > 0 {
        ToolMatch::Partial
    } else {
        ToolMatch::Rejected
    }
}

proof fn lemma_weights_bounded(cs: Seq<RequirementCheck>)
    ensures
        satisfied_weight(cs) <= total_weight(cs),
        total_weight(cs) <= 2 * cs.len(),
        cs.len() > 0 ==> total_weight(cs) > 0,
    decreases cs.len(),
{
    if cs.len() > 0 {
        lemma_weights_bounded(cs.drop_last());
    }
}

/// Classifies a tool against the requirements it was checked for.
pub fn classify_tool(checks: &Vec<RequirementCheck>, has_required_tags: bool, has_excluded_tags: bool) -> (r: ToolMatch)
    requires
        checks@.len() <= usize::MAX / 4,
    ensures
        r == tool_match(checks@, has_required_tags, has_excluded_tags),
{
    let n = checks.len();
    let mut total: usize = 0;
    let mut score: usize = 0;
    let mut failed = false;
    let mut i: usize = 0;
    while i < n
        invariant
            n == checks@.len(),
            n <= usize::MAX / 4,
            0 <= i <= n,
            total == total_weight(checks@.take(i as int)),
            score == satisfied_weight(checks@.take(i as int)),
            total <= 2 * i,
            score <= total,
            failed == exists|j: int| 0 <= j < i && #[trigger] checks@[j].required && !checks@[j].satisfied,
        decreases n - i,
    {
        let c = checks[i];
        proof {
            let cs = checks@;
            assert(cs.take(i + 1).drop_last() =~= cs.take(i as int));
            assert(cs.take(i + 1).last() == cs[i as int]);
        }
        let w: usize = if c.required { 2 } else { 1 };
        total = total + w;
        if c.satisfied {
            score = score + w;
        } else if c.required {
            failed = true;
        }
        i = i + 1;
    }
    proof {
        assert(checks@.take(n as int) =~= checks@);
        lemma_weights_bounded(checks@);
    }
    if failed || !has_required_tags || has_excluded_tags {
        ToolMatch::Rejected
    } else if n == 0 {
        ToolMatch::Matching
    } else if 2 * score > total {
        ToolMatch::Matching
    } else if score > 0 {
        ToolMatch::Partial
    } else {
        ToolMatch::Rejected
    }
}

} // verus!
