//! Stable insertion sorts by duration, with their sortedness and permutation properties.
use vstd::prelude::*;
use crate::time::Duration;

verus! {

broadcast use vstd::seq_lib::group_to_multiset_ensures;

/// Shortest first.
pub open spec fn sorted_asc(s: Seq<Duration>) -> bool {
    forall|i: int, j: int|
        0 <= i < j < s.len() ==> #[trigger] s[i].total_nanos() <= #[trigger] s[j].total_nanos()
}

/// Longest first, by the duration in the second component.
pub open spec fn sorted_desc_by_duration<K>(s: Seq<(K, Duration)>) -> bool {
    forall|i: int, j: int|
        0 <= i < j < s.len() ==> #[trigger] s[i].1.total_nanos() >= #[trigger] s[j].1.total_nanos()
}

/// The durations sorted, shortest first.
pub fn sort_durations(v: &Vec<Duration>) -> (r: Vec<Duration>)
    ensures
        sorted_asc(r@),
        r@.to_multiset() == v@.to_multiset(),
        r@.len() == v@.len(),
{
    let mut out: Vec<Duration> = Vec::new();
    let mut i: usize = 0;
    while i < v.len()
        invariant
            0 <= i <= v@.len(),
            sorted_asc(out@),
            out@.to_multiset() == v@.take(i as int).to_multiset(),
            out@.len() == i,
        decreases v@.len() - i,
    {
        let x = v[i];
        let mut p: usize = 0;
        while p < out.len() && out[p].le(&x)
            invariant
                0 <= p <= out@.len(),
                forall|k: int| 0 <= k < p ==> #[trigger] out@[k].total_nanos() <= x.total_nanos(),
            decreases out@.len() - p,
        {
            p = p + 1;
        }
        let ghost before = out@;
        out.insert(p, x);
        proof {
            assert(out@ == before.insert(p as int, x));
            assert forall|a: int, b: int| 0 <= a < b < out@.len() implies #[trigger] out@[a].total_nanos()
                <= #[trigger] out@[b].total_nanos() by {
                if b < p {
                    assert(out@[a] == before[a] && out@[b] == before[b]);
                } else if b == p {
                    assert(out@[a] == before[a]);
                } else if a == p {
                    assert(out@[b] == before[b - 1]);
                    if p < before.len() {
                        assert(before[p as int].total_nanos() > x.total_nanos());
                        if b - 1 > p {
                            assert(before[p as int].total_nanos() <= before[b - 1].total_nanos());
                        }
                    }
                } else if a < p {
                    assert(out@[a] == before[a] && out@[b] == before[b - 1]);
                    assert(before[a].total_nanos() <= x.total_nanos());
                    if p < before.len() {
                        assert(before[p as int].total_nanos() > x.total_nanos());
                        if b - 1 > p {
                            assert(before[p as int].total_nanos() <= before[b - 1].total_nanos());
                        }
                    }
                } else {
                    assert(out@[a] == before[a - 1] && out@[b] == before[b - 1]);
                }
            }
            assert(v@.take(i + 1) =~= v@.take(i as int).push(x));
        }
        i = i + 1;
    }
    proof {
        assert(v@.take(v@.len() as int) =~= v@);
    }
    out
}

/// The pairs sorted by their durations, longest first; pairs with equal durations keep
/// their order.
pub fn sort_by_duration_desc<K: Copy>(v: &Vec<(K, Duration)>) -> (r: Vec<(K, Duration)>)
    ensures
        sorted_desc_by_duration(r@),
        r@.to_multiset() == v@.to_multiset(),
        r@.len() == v@.len(),
{
    let mut out: Vec<(K, Duration)> = Vec::new();
    let mut i: usize = 0;
    while i < v.len()
        invariant
            0 <= i <= v@.len(),
            sorted_desc_by_duration(out@),
            out@.to_multiset() == v@.take(i as int).to_multiset(),
            out@.len() == i,
        decreases v@.len() - i,
    {
        let x = v[i];
        let mut p: usize = 0;
        while p < out.len() && x.1.le(&out[p].1)
            invariant
                0 <= p <= out@.len(),
                forall|k: int| 0 <= k < p ==> #[trigger] out@[k].1.total_nanos() >= x.1.total_nanos(),
            decreases out@.len() - p,
        {
            p = p + 1;
        }
        let ghost before = out@;
        out.insert(p, x);
        proof {
            assert(out@ == before.insert(p as int, x));
            assert forall|a: int, b: int| 0 <= a < b < out@.len() implies #[trigger] out@[a].1.total_nanos()
                >= #[trigger] out@[b].1.total_nanos() by {
                if b < p {
                    assert(out@[a] == before[a] && out@[b] == before[b]);
                } else if b == p {
                    assert(out@[a] == before[a]);
                } else if a == p {
                    assert(out@[b] == before[b - 1]);
                    if p < before.len() {
                        assert(before[p as int].1.total_nanos() < x.1.total_nanos());
                        if b - 1 > p {
                            assert(before[p as int].1.total_nanos() >= before[b - 1].1.total_nanos());
                        }
                    }
                } else if a < p {
                    assert(out@[a] == before[a] && out@[b] == before[b - 1]);
                    assert(before[a].1.total_nanos() >= x.1.total_nanos());
                    if p < before.len() {
                        assert(before[p as int].1.total_nanos() < x.1.total_nanos());
                        if b - 1 > p {
                            assert(before[p as int].1.total_nanos() >= before[b - 1].1.total_nanos());
                        }
                    }
                } else {
                    assert(out@[a] == before[a - 1] && out@[b] == before[b - 1]);
                }
            }
            assert(v@.take(i + 1) =~= v@.take(i as int).push(x));
        }
        i = i + 1;
    }
    proof {
        assert(v@.take(v@.len() as int) =~= v@);
    }
    out
}

} // verus!
