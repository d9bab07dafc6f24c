//! Ordering the process list for display.

use vstd::prelude::*;
use vstd::seq_lib::{group_to_multiset_ensures, to_multiset_build};
use crate::network::lemma_insert_to_multiset;
use crate::process::ProcessRecord;

verus! {

/// The column the process list is ordered by.
#[derive(Clone, Copy, Debug, PartialEq, Eq, Structural)]
pub enum SortBy {
    /// Highest CPU usage first.
    Cpu,
    /// Most memory first.
    Memory,
    /// Lowest identifier first.
    Pid,
}

/// `a` is listed strictly before `b` when ordering by `by`.
pub open spec fn listed_before(a: ProcessRecord, b: ProcessRecord, by: SortBy) -> bool {
    match by {
        SortBy::Cpu => a.cpu_usage_centi > b.cpu_usage_centi,
        SortBy::Memory => a.memory > b.memory,
        SortBy::Pid => a.pid < b.pid,
    }
}

/// No record is listed after one that should come after it.
pub open spec fn in_display_order(s: Seq<ProcessRecord>, by: SortBy) -> bool {
    forall|i: int, j: int| 0 <= i < j < s.len() ==> !listed_before(#[trigger] s[j], #[trigger] s[i], by)
}

fn is_listed_before(a: &ProcessRecord, b: &ProcessRecord, by: SortBy) -> (r: bool)
    ensures
        r == listed_before(*a, *b, by),
{
    match by {
        SortBy::Cpu => a.cpu_usage_centi > b.cpu_usage_centi,
        SortBy::Memory => a.memory > b.memory,
        SortBy::Pid => a.pid < b.pid,
    }
}

proof fn lemma_insert_in_order(s: Seq<ProcessRecord>, p: int, x: ProcessRecord, by: SortBy)
    requires
        in_display_order(s, by),
        0 <= p <= s.len(),
        forall|i: int| 0 <= i < p ==> !listed_before(x, #[trigger] s[i], by),
        p < s.len() ==> listed_before(x, s[p], by),
    ensures
        in_display_order(s.insert(p, x), by),
{
    let t = s.insert(p, x);
    s.insert_ensures(p, x);
    assert forall|a: int, b: int| 0 <= a < b < t.len() implies !listed_before(
        #[trigger] t[b],
        #[trigger] t[a],
        by,
    ) by {
        if b < p {
            assert(t[a] == s[a] && t[b] == s[b]);
            assert(!listed_before(s[b], s[a], by));
        } else if a < p && b == p {
            assert(t[a] == s[a]);
            assert(!listed_before(x, s[a], by));
        } else if a < p && b > p {
            assert(t[a] == s[a] && t[b] == s[b - 1]);
            assert(!listed_before(s[b - 1], s[a], by));
        } else if a == p {
            assert(t[b] == s[b - 1]);
            if p < b - 1 {
                assert(!listed_before(s[b - 1], s[p], by));
            }
        } else {
            assert(t[a] == s[a - 1] && t[b] == s[b - 1]);
            assert(!listed_before(s[b - 1], s[a - 1], by));
        }
    }
}

/// The processes in display order for `by`; records that tie keep their
/// relative order.
pub fn sorted_processes(procs: &Vec<ProcessRecord>, by: SortBy) -> (r: Vec<ProcessRecord>)
    ensures
        r@.to_multiset() == procs@.to_multiset(),
        in_display_order(r@, by),
{
    broadcast use group_to_multiset_ensures;

    let mut out: Vec<ProcessRecord> = Vec::new();
    let mut i: usize = 0;
    while i < procs.len()
        invariant
            i <= procs@.len(),
            out@.to_multiset() == procs@.take(i as int).to_multiset(),
            in_display_order(out@, by),
        decreases procs@.len() - i,
    {
        let x = procs[i].duplicate();
        let mut p: usize = 0;
        while p < out.len()
            invariant
                p <= out@.len(),
                forall|k: int| 0 <= k < p ==> !listed_before(x, #[trigger] out@[k], by),
            ensures
                p <= out@.len(),
                forall|k: int| 0 <= k < p ==> !listed_before(x, #[trigger] out@[k], by),
                p < out@.len() ==> listed_before(x, out@[p as int], by),
            decreases out@.len() - p,
        {
            if is_listed_before(&x, &out[p], by) {
                break;
            }
            p = p + 1;
        }
        let ghost before = out@;
        out.insert(p, x);
        proof {
            lemma_insert_to_multiset(before, p as int, x);
            lemma_insert_in_order(before, p as int, x, by);
            assert(procs@.take(i as int + 1) =~= procs@.take(i as int).push(x));
            to_multiset_build(procs@.take(i as int), x);
        }
        i = i + 1;
    }
    assert(procs@.take(i as int) =~= procs@);
    out
}

} // verus!
