//! Tool discovery over what is known of each tool: which requirements it satisfies, its
//! tags and its name. Tools are listed by name (ties in registration order).
use vstd::prelude::*;
use crate::support::str_eq;
use super::{classify_tool, tool_match, RequirementCheck, ToolMatch};

verus! {

/// What discovery knows of one tool.
pub struct ToolFacts {
    /// The tool's name, by which results are listed.
    pub name: String,
    /// The tool's tags.
    pub tags: Vec<String>,
    /// For each requirement of the search, whether the tool satisfies it.
    pub satisfies: Vec<bool>,
}

/// One capability requirement of a search.
pub struct RequirementFacts {
    /// Whether the capability must be present.
    pub required: bool,
}

/// The outcome of a discovery, as positions: of tools in the list given, of requirements
/// in the requirements given.
pub struct ToolSelection {
    /// Tools that match, by name, at most the limit.
    pub matching: Vec<usize>,
    /// Tools that match in part, by name.
    pub partial: Vec<usize>,
    /// Required capabilities that no tool satisfies, in order.
    pub unsatisfied: Vec<usize>,
}

/// `a` comes strictly before `b` in the lexicographic order of their characters.
pub open spec fn lex_lt(a: Seq<char>, b: Seq<char>) -> bool
    decreases a.len(),
{
    if b.len() == 0 {
        false
    } else if a.len() == 0 {
        true
    } else if a[0] != b[0] {
        (a[0] as int) < (b[0] as int)
    } else {
        lex_lt(a.drop_first(), b.drop_first())
    }
}

/// The lexicographic order never puts a text before itself.
pub proof fn lemma_lex_irreflexive(a: Seq<char>)
    ensures
        !lex_lt(a, a),
    decreases a.len(),
{
    if a.len() > 0 {
        lemma_lex_irreflexive(a.drop_first());
    }
}

/// The lexicographic order is transitive.
pub proof fn lemma_lex_transitive(a: Seq<char>, b: Seq<char>, c: Seq<char>)
    requires
        lex_lt(a, b),
        lex_lt(b, c),
    ensures
        lex_lt(a, c),
    decreases a.len(),
{
    if a.len() > 0 && b.len() > 0 && c.len() > 0 && a[0] == b[0] && b[0] == c[0] {
        lemma_lex_transitive(a.drop_first(), b.drop_first(), c.drop_first());
    }
}

/// Of two different texts, one comes before the other.
pub proof fn lemma_lex_total(a: Seq<char>, b: Seq<char>)
    requires
        a != b,
    ensures
        lex_lt(a, b) || lex_lt(b, a),
    decreases a.len(),
{
    if a.len() > 0 && b.len() > 0 && a[0] == b[0] {
        if a.drop_first() == b.drop_first() {
            assert(a =~= seq![a[0]] + a.drop_first());
            assert(b =~= seq![b[0]] + b.drop_first());
        }
        lemma_lex_total(a.drop_first(), b.drop_first());
    } else if a.len() > 0 && b.len() > 0 {
        let x = a[0];
        let y = b[0];
        assert((x as int) == (y as int) ==> x == y);
    } else if a.len() == 0 && b.len() == 0 {
        assert(a =~= b);
    }
}

/// Whether `a` comes strictly before `b` in the lexicographic order of their characters.
pub fn name_lt(a: &str, b: &str) -> (r: bool)
    ensures
        r == lex_lt(a@, b@),
{
    let la = a.unicode_len();
    let lb = b.unicode_len();
    let mut i: usize = 0;
    proof {
        assert(a@.skip(0) =~= a@);
        assert(b@.skip(0) =~= b@);
    }
    while i < la && i < lb
        invariant
            la == a@.len(),
            lb == b@.len(),
            0 <= i <= la,
            i <= lb,
            lex_lt(a@, b@) == lex_lt(a@.skip(i as int), b@.skip(i as int)),
        decreases la - i,
    {
        let ca = a.get_char(i);
        let cb = b.get_char(i);
        if ca != cb {
            proof {
                assert(a@.skip(i as int)[0] == ca);
                assert(b@.skip(i as int)[0] == cb);
            }
            return (ca as u32) < (cb as u32);
        }
        proof {
            assert(a@.skip(i as int).drop_first() =~= a@.skip(i + 1));
            assert(b@.skip(i as int).drop_first() =~= b@.skip(i + 1));
        }
        i = i + 1;
    }
    proof {
        if i == lb {
            assert(b@.skip(i as int).len() == 0);
        } else {
            assert(a@.skip(i as int).len() == 0);
        }
    }
    i < lb
}

/// Tool `s` is listed before tool `t`: by name, then by position.
pub open spec fn listed_before(tools: Seq<ToolFacts>, s: int, t: int) -> bool {
    lex_lt(tools[s].name@, tools[t].name@) || (tools[s].name@ == tools[t].name@ && s < t)
}

/// `out` lists tools in order.
pub open spec fn sorted_by_name(tools: Seq<ToolFacts>, out: Seq<usize>) -> bool {
    forall|i: int, j: int| 0 <= i < j < out.len() ==> #[trigger] listed_before(tools, out[i] as int, out[j] as int)
}

/// The requirement checks of tool `t`.
pub open spec fn checks_of(tools: Seq<ToolFacts>, reqs: Seq<RequirementFacts>, t: int) -> Seq<RequirementCheck> {
    Seq::new(reqs.len(), |r: int| RequirementCheck { required: reqs[r].required, satisfied: tools[t].satisfies@[r] })
}

/// `tags` holds a tag equal to `tag`.
pub open spec fn holds_tag(tags: Seq<String>, tag: String) -> bool {
    exists|j: int| 0 <= j < tags.len() && #[trigger] tags[j]@ == tag@
}

/// `tags` holds every one of `wanted`.
pub open spec fn holds_all(tags: Seq<String>, wanted: Seq<String>) -> bool {
    forall|i: int| 0 <= i < wanted.len() ==> #[trigger] holds_tag(tags, wanted[i])
}

/// `tags` holds some of `unwanted`.
pub open spec fn holds_any(tags: Seq<String>, unwanted: Seq<String>) -> bool {
    exists|i: int| 0 <= i < unwanted.len() && #[trigger] holds_tag(tags, unwanted[i])
}

/// How tool `t` fares in the search.
pub open spec fn match_of(
    tools: Seq<ToolFacts>,
    reqs: Seq<RequirementFacts>,
    required_tags: Seq<String>,
    excluded_tags: Seq<String>,
    t: int,
) -> ToolMatch {
    tool_match(
        checks_of(tools, reqs, t),
        holds_all(tools[t].tags@, required_tags),
        holds_any(tools[t].tags@, excluded_tags),
    )
}

/// `out` lists, in order, exactly the tools that fare `m`.
pub open spec fn listing_of(
    tools: Seq<ToolFacts>,
    reqs: Seq<RequirementFacts>,
    required_tags: Seq<String>,
    excluded_tags: Seq<String>,
    m: ToolMatch,
    out: Seq<usize>,
) -> bool {
    &&& forall|i: int| 0 <= i < out.len() ==> #[trigger] out[i] < tools.len()
        && match_of(tools, reqs, required_tags, excluded_tags, out[i] as int) == m
    &&& forall|t: int| 0 <= t < tools.len() && match_of(tools, reqs, required_tags, excluded_tags, t) == m
        ==> #[trigger] out.contains(t as usize)
    &&& sorted_by_name(tools, out)
}

/// Requirement `r` is required and no tool satisfies it.
pub open spec fn unsatisfiable(tools: Seq<ToolFacts>, reqs: Seq<RequirementFacts>, r: int) -> bool {
    reqs[r].required && forall|t: int| 0 <= t < tools.len() ==> !(#[trigger] tools[t].satisfies@[r])
}

/// The required requirements no tool satisfies, in order.
pub open spec fn unsatisfiable_list(tools: Seq<ToolFacts>, reqs: Seq<RequirementFacts>, n: int) -> Seq<usize>
    decreases n,
{
    if n <= 0 {
        Seq::empty()
    } else {
        let rest = unsatisfiable_list(tools, reqs, n - 1);
        if unsatisfiable(tools, reqs, n - 1) {
            rest.push((n - 1) as usize)
        } else {
            rest
        }
    }
}

/// Whether `tags` holds a tag equal to `tag`.
fn has_tag(tags: &Vec<String>, tag: &String) -> (r: bool)
    ensures
        r == holds_tag(tags@, *tag),
{
    let mut j: usize = 0;
    while j < tags.len()
        invariant
            0 <= j <= tags@.len(),
            forall|k: int| 0 <= k < j ==> #[trigger] tags@[k]@ != tag@,
        decreases tags@.len() - j,
    {
        if str_eq(tags[j].as_str(), tag.as_str()) {
            return true;
        }
        j = j + 1;
    }
    false
}

/// Whether `tags` holds every one of `wanted`.
fn has_all_tags(tags: &Vec<String>, wanted: &Vec<String>) -> (r: bool)
    ensures
        r == holds_all(tags@, wanted@),
{
    let mut i: usize = 0;
    while i < wanted.len()
        invariant
            0 <= i <= wanted@.len(),
            forall|k: int| 0 <= k < i ==> #[trigger] holds_tag(tags@, wanted@[k]),
        decreases wanted@.len() - i,
    {
        if !has_tag(tags, &wanted[i]) {
            return false;
        }
        i = i + 1;
    }
    true
}

/// Whether `tags` holds some of `unwanted`.
fn has_any_tag(tags: &Vec<String>, unwanted: &Vec<String>) -> (r: bool)
    ensures
        r == holds_any(tags@, unwanted@),
{
    let mut i: usize = 0;
    while i < unwanted.len()
        invariant
            0 <= i <= unwanted@.len(),
            forall|k: int| 0 <= k < i ==> !#[trigger] holds_tag(tags@, unwanted@[k]),
        decreases unwanted@.len() - i,
    {
        if has_tag(tags, &unwanted[i]) {
            return true;
        }
        i = i + 1;
    }
    false
}

/// The requirement checks of one tool.
fn checks_for(tool: &ToolFacts, reqs: &Vec<RequirementFacts>) -> (r: Vec<RequirementCheck>)
    requires
        tool.satisfies@.len() == reqs@.len(),
    ensures
        r@ == checks_of(seq![*tool], reqs@, 0),
{
    let mut out: Vec<RequirementCheck> = Vec::new();
    let mut i: usize = 0;
    while i < reqs.len()
        invariant
            0 <= i <= reqs@.len(),
            tool.satisfies@.len() == reqs@.len(),
            out@ == checks_of(seq![*tool], reqs@, 0).take(i as int),
        decreases reqs@.len() - i,
    {
        out.push(RequirementCheck { required: reqs[i].required, satisfied: tool.satisfies[i] });
        proof {
            assert(out@ =~= checks_of(seq![*tool], reqs@, 0).take(i + 1));
        }
        i = i + 1;
    }
    proof {
        assert(out@ =~= checks_of(seq![*tool], reqs@, 0));
    }
    out
}

/// Inserts tool `t`, later in the list than every tool in `out`, at its place by name.
fn insert_by_name(tools: &Vec<ToolFacts>, out: &mut Vec<usize>, t: usize)
    requires
        t < tools@.len(),
        sorted_by_name(tools@, old(out)@),
        forall|i: int| 0 <= i < old(out)@.len() ==> #[trigger] old(out)@[i] < t,
    ensures
        sorted_by_name(tools@, final(out)@),
        final(out)@.len() == old(out)@.len() + 1,
        forall|x: usize| #[trigger] final(out)@.contains(x) <==> (old(out)@.contains(x) || x == t),
{
    let mut p: usize = 0;
    while p < out.len() && !name_lt(tools[t].name.as_str(), tools[out[p]].name.as_str())
        invariant
            0 <= p <= out@.len(),
            t < tools@.len(),
            forall|i: int| 0 <= i < out@.len() ==> #[trigger] out@[i] < t,
            forall|k: int| 0 <= k < p ==> #[trigger] listed_before(tools@, out@[k] as int, t as int),
        decreases out@.len() - p,
    {
        proof {
            let s = out@[p as int] as int;
            if tools@[s].name@ != tools@[t as int].name@ {
                lemma_lex_total(tools@[s].name@, tools@[t as int].name@);
            }
        }
        p = p + 1;
    }
    let ghost before = out@;
    out.insert(p, t);
    proof {
        assert(out@ == before.insert(p as int, t));
        assert forall|a: int, b: int| 0 <= a < b < out@.len() implies #[trigger] listed_before(
            tools@,
            out@[a] as int,
            out@[b] as int,
        ) by {
            if b < p {
                assert(out@[a] == before[a] && out@[b] == before[b]);
            } else if b == p {
                assert(out@[a] == before[a]);
            } else if a == p {
                assert(out@[b] == before[b - 1]);
                let s = before[p as int] as int;
                assert(lex_lt(tools@[t as int].name@, tools@[s].name@));
                if b - 1 > p {
                    assert(listed_before(tools@, s, before[b - 1] as int));
                    let u = before[b - 1] as int;
                    if lex_lt(tools@[s].name@, tools@[u].name@) {
                        lemma_lex_transitive(tools@[t as int].name@, tools@[s].name@, tools@[u].name@);
                    }
                }
            } else if a < p {
                assert(out@[a] == before[a] && out@[b] == before[b - 1]);
                assert(listed_before(tools@, before[a] as int, before[b - 1] as int));
            } else {
                assert(out@[a] == before[a - 1] && out@[b] == before[b - 1]);
                assert(listed_before(tools@, before[a - 1] as int, before[b - 1] as int));
            }
        }
        assert forall|x: usize| #[trigger] out@.contains(x) <==> (before.contains(x) || x == t) by {
            if out@.contains(x) {
                let k = choose|k: int| 0 <= k < out@.len() && out@[k] == x;
                if k < p {
                    assert(before[k] == x);
                } else if k > p {
                    assert(before[k - 1] == x);
                }
            }
            if before.contains(x) {
                let k = choose|k: int| 0 <= k < before.len() && before[k] == x;
                if k < p {
                    assert(out@[k] == x);
                } else {
                    assert(out@[k + 1] == x);
                }
            }
            if x == t {
                assert(out@[p as int] == t);
            }
        }
    }
}


/// The tools before position `n` that fare `m`, in order.
pub open spec fn listing_upto(
    tools: Seq<ToolFacts>,
    reqs: Seq<RequirementFacts>,
    required_tags: Seq<String>,
    excluded_tags: Seq<String>,
    m: ToolMatch,
    out: Seq<usize>,
    n: int,
) -> bool {
    &&& forall|i: int| 0 <= i < out.len() ==> #[trigger] out[i] < n
        && match_of(tools, reqs, required_tags, excluded_tags, out[i] as int) == m
    &&& forall|t: int| 0 <= t < n && match_of(tools, reqs, required_tags, excluded_tags, t) == m
        ==> #[trigger] out.contains(t as usize)
    &&& sorted_by_name(tools, out)
}

/// The first `l` entries, or all when there are fewer.
pub open spec fn at_most(s: Seq<usize>, limit: Option<usize>) -> Seq<usize> {
    match limit {
        Some(l) => if l < s.len() { s.take(l as int) } else { s },
        None => s,
    }
}

/// Discovers tools: the required capabilities no tool satisfies, the tools that match
/// (listed by name, at most `limit` of them) and the tools that match in part (listed by
/// name).
pub fn discover_tools(
    tools: &Vec<ToolFacts>,
    requirements: &Vec<RequirementFacts>,
    required_tags: &Vec<String>,
    excluded_tags: &Vec<String>,
    limit: Option<usize>,
) -> (r: ToolSelection)
    requires
        requirements@.len() <= usize::MAX / 4,
        forall|t: int| 0 <= t < tools@.len() ==> (#[trigger] tools@[t]).satisfies@.len() == requirements@.len(),
    ensures
        r.unsatisfied@ == unsatisfiable_list(tools@, requirements@, requirements@.len() as int),
        listing_of(tools@, requirements@, required_tags@, excluded_tags@, ToolMatch::Partial, r.partial@),
        exists|all: Seq<usize>|
            #[trigger] listing_of(tools@, requirements@, required_tags@, excluded_tags@, ToolMatch::Matching, all)
                && r.matching@ == at_most(all, limit),
{
    let ghost ts = tools@;
    let ghost rs = requirements@;
    let mut unsatisfied: Vec<usize> = Vec::new();
    let mut ri: usize = 0;
    while ri < requirements.len()
        invariant
            0 <= ri <= rs.len(),
            ts == tools@,
            rs == requirements@,
            forall|t: int| 0 <= t < ts.len() ==> (#[trigger] ts[t]).satisfies@.len() == rs.len(),
            unsatisfied@ == unsatisfiable_list(ts, rs, ri as int),
        decreases rs.len() - ri,
    {
        if requirements[ri].required {
            let mut any = false;
            let mut t: usize = 0;
            while t < tools.len()
                invariant
                    0 <= t <= ts.len(),
                    ri < rs.len(),
                    ts == tools@,
                    forall|u: int| 0 <= u < ts.len() ==> (#[trigger] ts[u]).satisfies@.len() == rs.len(),
                    any == exists|u: int| 0 <= u < t && #[trigger] ts[u].satisfies@[ri as int],
                decreases ts.len() - t,
            {
                if tools[t].satisfies[ri] {
                    any = true;
                }
                t = t + 1;
            }
            if !any {
                unsatisfied.push(ri);
            }
        }
        ri = ri + 1;
    }
    let mut matching: Vec<usize> = Vec::new();
    let mut partial: Vec<usize> = Vec::new();
    let mut t: usize = 0;
    while t < tools.len()
        invariant
            0 <= t <= ts.len(),
            ts == tools@,
            rs == requirements@,
            rs.len() <= usize::MAX / 4,
            forall|u: int| 0 <= u < ts.len() ==> (#[trigger] ts[u]).satisfies@.len() == rs.len(),
            listing_upto(ts, rs, required_tags@, excluded_tags@, ToolMatch::Matching, matching@, t as int),
            listing_upto(ts, rs, required_tags@, excluded_tags@, ToolMatch::Partial, partial@, t as int),
        decreases ts.len() - t,
    {
        let tool = &tools[t];
        let checks = checks_for(tool, requirements);
        let with_tags = has_all_tags(&tool.tags, required_tags);
        let excluded = has_any_tag(&tool.tags, excluded_tags);
        proof {
            assert(checks_of(seq![*tool], rs, 0) =~= checks_of(ts, rs, t as int));
        }
        let m = classify_tool(&checks, with_tags, excluded);
        assert(m == match_of(ts, rs, required_tags@, excluded_tags@, t as int));
        let ghost m0 = matching@;
        let ghost p0 = partial@;
        match m {
            ToolMatch::Matching => {
                insert_by_name(tools, &mut matching, t);
            },
            ToolMatch::Partial => {
                insert_by_name(tools, &mut partial, t);
            },
            ToolMatch::Rejected => {},
        }
        proof {
            assert forall|i: int| 0 <= i < matching@.len() implies #[trigger] matching@[i] < t + 1
                && match_of(ts, rs, required_tags@, excluded_tags@, matching@[i] as int) == ToolMatch::Matching by {
                assert(matching@.contains(matching@[i]));
                if m0.contains(matching@[i]) {
                    let k = choose|k: int| 0 <= k < m0.len() && m0[k] == matching@[i];
                }
            }
            assert forall|u: int| 0 <= u < t + 1 && match_of(ts, rs, required_tags@, excluded_tags@, u) == ToolMatch::Matching
                implies #[trigger] matching@.contains(u as usize) by {
                if u < t {
                    assert(m0.contains(u as usize));
                }
            }
            assert forall|i: int| 0 <= i < partial@.len() implies #[trigger] partial@[i] < t + 1
                && match_of(ts, rs, required_tags@, excluded_tags@, partial@[i] as int) == ToolMatch::Partial by {
                assert(partial@.contains(partial@[i]));
                if p0.contains(partial@[i]) {
                    let k = choose|k: int| 0 <= k < p0.len() && p0[k] == partial@[i];
                }
            }
            assert forall|u: int| 0 <= u < t + 1 && match_of(ts, rs, required_tags@, excluded_tags@, u) == ToolMatch::Partial
                implies #[trigger] partial@.contains(u as usize) by {
                if u < t {
                    assert(p0.contains(u as usize));
                }
            }
        }
        t = t + 1;
    }
    let ghost all = matching@;
    assert(listing_of(ts, rs, required_tags@, excluded_tags@, ToolMatch::Matching, all));
    assert(listing_of(ts, rs, required_tags@, excluded_tags@, ToolMatch::Partial, partial@));
    match limit {
        Some(l) => {
            matching.truncate(l);
            proof {
                if l < all.len() {
                    assert(matching@ =~= all.take(l as int));
                }
            }
        },
        None => {},
    }
    assert(matching@ == at_most(all, limit));
    ToolSelection { matching, partial, unsatisfied }
}


/// No tool is listed before itself, and of two tools at most one is listed before the other.
proof fn lemma_listed_asymmetric(tools: Seq<ToolFacts>, s: int, t: int)
    ensures
        !(listed_before(tools, s, t) && listed_before(tools, t, s)),
{
    let (a, b) = (tools[s].name@, tools[t].name@);
    lemma_lex_irreflexive(a);
    lemma_lex_irreflexive(b);
    if lex_lt(a, b) && lex_lt(b, a) {
        lemma_lex_transitive(a, b, a);
    }
}

/// Two lists in order of the same tools are the same list.
proof fn lemma_sorted_unique(tools: Seq<ToolFacts>, a: Seq<usize>, b: Seq<usize>)
    requires
        sorted_by_name(tools, a),
        sorted_by_name(tools, b),
        forall|x: usize| #![trigger a.contains(x)] #![trigger b.contains(x)] a.contains(x) <==> b.contains(x),
    ensures
        a == b,
    decreases a.len(),
{
    if a.len() == 0 {
        if b.len() > 0 {
            assert(b.contains(b[0]));
        }
        assert(a =~= b);
    } else {
        assert(a.contains(a[0]));
        let k = choose|k: int| 0 <= k < b.len() && b[k] == a[0];
        assert(b.contains(b[0]));
        let j = choose|j: int| 0 <= j < a.len() && a[j] == b[0];
        if k > 0 {
            assert(listed_before(tools, b[0] as int, b[k] as int));
            if j == 0 {
                lemma_listed_asymmetric(tools, b[0] as int, b[0] as int);
            } else {
                assert(listed_before(tools, a[0] as int, a[j] as int));
                lemma_listed_asymmetric(tools, a[0] as int, b[0] as int);
            }
        }
        let (a1, b1) = (a.drop_first(), b.drop_first());
        assert forall|x: usize| #![trigger a1.contains(x)] #![trigger b1.contains(x)] a1.contains(x) <==> b1.contains(x) by {
            if a1.contains(x) {
                let i = choose|i: int| 0 <= i < a1.len() && a1[i] == x;
                assert(a.contains(x));
                let i2 = choose|i2: int| 0 <= i2 < b.len() && b[i2] == x;
                if i2 == 0 {
                    assert(listed_before(tools, a[0] as int, a[i + 1] as int));
                    lemma_listed_asymmetric(tools, a[0] as int, a[0] as int);
                }
                assert(b1[i2 - 1] == x);
            }
            if b1.contains(x) {
                let i = choose|i: int| 0 <= i < b1.len() && b1[i] == x;
                assert(b.contains(x));
                let i2 = choose|i2: int| 0 <= i2 < a.len() && a[i2] == x;
                if i2 == 0 {
                    assert(listed_before(tools, b[0] as int, b[i + 1] as int));
                    lemma_listed_asymmetric(tools, b[0] as int, b[0] as int);
                }
                assert(a1[i2 - 1] == x);
            }
        }
        assert forall|p: int, q: int| 0 <= p < q < a1.len() implies #[trigger] listed_before(tools, a1[p] as int, a1[q] as int) by {
            assert(listed_before(tools, a[p + 1] as int, a[q + 1] as int));
        }
        assert forall|p: int, q: int| 0 <= p < q < b1.len() implies #[trigger] listed_before(tools, b1[p] as int, b1[q] as int) by {
            assert(listed_before(tools, b[p + 1] as int, b[q + 1] as int));
        }
        lemma_sorted_unique(tools, a1, b1);
        assert(a =~= seq![a[0]] + a1);
        assert(b =~= seq![b[0]] + b1);
    }
}

/// A listing of the tools that fare alike is determined by the search: there is only one,
/// so discovery's lists are fixed by its inputs.
pub proof fn law_listing_unique(
    tools: Seq<ToolFacts>,
    reqs: Seq<RequirementFacts>,
    required_tags: Seq<String>,
    excluded_tags: Seq<String>,
    m: ToolMatch,
    a: Seq<usize>,
    b: Seq<usize>,
)
    requires
        listing_of(tools, reqs, required_tags, excluded_tags, m, a),
        listing_of(tools, reqs, required_tags, excluded_tags, m, b),
    ensures
        a == b,
{
    assert forall|x: usize| #![trigger a.contains(x)] #![trigger b.contains(x)] a.contains(x) <==> b.contains(x) by {
        if a.contains(x) {
            let i = choose|i: int| 0 <= i < a.len() && a[i] == x;
            assert(a[i] < tools.len());
            assert(b.contains((x as int) as usize));
        }
        if b.contains(x) {
            let i = choose|i: int| 0 <= i < b.len() && b[i] == x;
            assert(b[i] < tools.len());
            assert(a.contains((x as int) as usize));
        }
    }
    lemma_sorted_unique(tools, a, b);
}

} // verus!
