//! The text of observer log lines, and the arithmetic of the metrics observer.
use vstd::prelude::*;
use crate::text::{push_str, to_string};
use crate::time::Duration;

verus! {

/// The correlation string of a context's run, workflow and node names.
pub open spec fn spec_correlation(run_id: Option<Seq<char>>, workflow: Option<Seq<char>>, node: Option<Seq<char>>) -> Seq<char> {
    match (run_id, workflow, node) {
        (Some(r), Some(w), Some(n)) => r + ":"@ + w + ":"@ + n,
        (Some(r), Some(w), None) => r + ":"@ + w,
        (Some(r), None, _) => r,
        _ => "no-context"@,
    }
}

/// The view of an optional string.
pub open spec fn view_of(o: Option<String>) -> Option<Seq<char>> {
    match o {
        Some(s) => Some(s@),
        None => None,
    }
}

/// The correlation string: `run:workflow:node`, `run:workflow`, the run id alone, or
/// `no-context` without a run id.
pub fn correlation_text(run_id: &Option<String>, workflow: &Option<String>, node: &Option<String>) -> (r: String)
    ensures
        r@ == spec_correlation(view_of(*run_id), view_of(*workflow), view_of(*node)),
{
    let mut s = String::new();
    match (run_id, workflow, node) {
        (Some(r), Some(w), Some(n)) => {
            push_str(&mut s, r.as_str());
            push_str(&mut s, ":");
            push_str(&mut s, w.as_str());
            push_str(&mut s, ":");
            push_str(&mut s, n.as_str());
        },
        (Some(r), Some(w), None) => {
            push_str(&mut s, r.as_str());
            push_str(&mut s, ":");
            push_str(&mut s, w.as_str());
        },
        (Some(r), None, _) => {
            push_str(&mut s, r.as_str());
        },
        _ => {
            push_str(&mut s, "no-context");
        },
    }
    s
}

/// `[name]`.
pub fn bracket(name: &str) -> (r: String)
    ensures
        r@ == "["@ + name@ + "]"@,
{
    let mut s = String::new();
    push_str(&mut s, "[");
    push_str(&mut s, name);
    push_str(&mut s, "]");
    s
}

/// A log line: the head, a space, the bracketed correlation and a space when there is one,
/// then the rest.
pub fn prefixed_line(head: &str, correlation: Option<&str>, tail: &str) -> (r: String)
    ensures
        r@ == head@ + " "@ + match correlation {
            Some(c) => "["@ + c@ + "] "@,
            None => Seq::<char>::empty(),
        } + tail@,
{
    let mut s = String::new();
    push_str(&mut s, head);
    push_str(&mut s, " ");
    match correlation {
        Some(c) => {
            push_str(&mut s, "[");
            push_str(&mut s, c);
            push_str(&mut s, "] ");
        },
        None => {
            assert(s@ + Seq::<char>::empty() =~= s@);
        },
    }
    push_str(&mut s, tail);
    s
}

/// A line of the default context logging: `[run] [workflow] ` then the rest.
pub fn context_line(run_id: &str, workflow: &str, tail: &str) -> (r: String)
    ensures
        r@ == "["@ + run_id@ + "] ["@ + workflow@ + "] "@ + tail@,
{
    let mut s = String::new();
    push_str(&mut s, "[");
    push_str(&mut s, run_id);
    push_str(&mut s, "] [");
    push_str(&mut s, workflow);
    push_str(&mut s, "] ");
    push_str(&mut s, tail);
    s
}

/// The nanoseconds of a span, kept modulo 2^64 as the metrics observer's counter does.
pub fn nanos_of(d: Duration) -> (r: u64)
    ensures
        r == d.total_nanos() % 0x1_0000_0000_0000_0000,
{
    let n = d.as_nanos();
    (n % 0x1_0000_0000_0000_0000u128) as u64
}

/// The whole nanoseconds of `total_ns` spread over `count` (zero for a count of zero).
pub open spec fn mean_nanos(count: u64, total_ns: u64) -> int {
    if count == 0 {
        0
    } else {
        (total_ns / count) as int
    }
}

/// The average of `total_ns` nanoseconds over `count` resolutions: none for no resolution.
pub fn average_nanos(count: u64, total_ns: u64) -> (r: Option<Duration>)
    ensures
        count == 0 ==> r is None,
        count != 0 ==> (r matches Some(d) && d.total_nanos() == total_ns / count),
{
    if count == 0 {
        None
    } else {
        Some(Duration::from_nanos(total_ns / count))
    }
}

/// The average of `total_ns` nanoseconds over `count` accesses, zero for no access.
pub fn average_or_zero(count: u64, total_ns: u64) -> (r: Duration)
    ensures
        count == 0 ==> r.total_nanos() == 0,
        count != 0 ==> r.total_nanos() == total_ns / count,
{
    if count == 0 {
        Duration::zero()
    } else {
        Duration::from_nanos(total_ns / count)
    }
}

} // verus!
