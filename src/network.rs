//! The network sampler: per-interface totals and rates, published in
//! descending order of name.

use vstd::prelude::*;
use vstd::seq_lib::{group_to_multiset_ensures, to_multiset_build};
use crate::names::{
    name_lt, name_less, excluded_name, is_excluded, lemma_name_lt_transitive,
    lemma_name_lt_irreflexive,
};
use crate::rate::{Rate, rate, rate_of, elapsed_between};

verus! {

/// The cumulative counters of one interface, as the probe reported them.
#[derive(Debug)]
pub struct InterfaceReading {
    pub name: String,
    pub rx_total: u64,
    pub tx_total: u64,
}

/// One published interface: its totals and its receive and transmit rates.
#[derive(Debug)]
pub struct NetworkInterfaceRecord {
    pub name: String,
    pub rx_total: u64,
    pub tx_total: u64,
    pub rx_rate: Rate,
    pub tx_rate: Rate,
}

impl NetworkInterfaceRecord {
    /// A field-for-field copy.
    pub fn duplicate(&self) -> (r: NetworkInterfaceRecord)
        ensures
            r == *self,
    {
        NetworkInterfaceRecord {
            name: self.name.clone(),
            rx_total: self.rx_total,
            tx_total: self.tx_total,
            rx_rate: self.rx_rate,
            tx_rate: self.tx_rate,
        }
    }
}

/// A copy of a publication, record for record.
pub fn duplicate_records(v: &Vec<NetworkInterfaceRecord>) -> (r: Vec<NetworkInterfaceRecord>)
    ensures
        r@ == v@,
{
    let mut r: Vec<NetworkInterfaceRecord> = Vec::new();
    let mut i: usize = 0;
    while i < v.len()
        invariant
            i <= v@.len(),
            r@ == v@.take(i as int),
        decreases v@.len() - i,
    {
        r.push(v[i].duplicate());
        i = i + 1;
        assert(r@ =~= v@.take(i as int));
    }
    assert(v@.take(i as int) =~= v@);
    r
}

struct BaselineEntry {
    name: String,
    rx: u64,
    tx: u64,
}

/// The network sampler: the last totals seen of each interface it tracks,
/// and when they were read.
pub struct NetworkSampler {
    entries: Vec<BaselineEntry>,
    taken_at: u64,
    totals: Ghost<Map<Seq<char>, (u64, u64)>>,
}

/// The record published for `r`, whose previous totals were `prev`.
pub open spec fn interface_record(r: InterfaceReading, prev: (u64, u64), dt: u64) -> NetworkInterfaceRecord {
    NetworkInterfaceRecord {
        name: r.name,
        rx_total: r.rx_total,
        tx_total: r.tx_total,
        rx_rate: rate_of(prev.0, r.rx_total, dt),
        tx_rate: rate_of(prev.1, r.tx_total, dt),
    }
}

/// Goes through `readings` in order from the totals `m`: each interface that
/// is not left out gets a record, rated against its previous totals (its
/// current ones if it has none yet), and its totals become the previous ones.
/// Yields the new totals and the records, in the order of the readings.
pub open spec fn net_fold(m: Map<Seq<char>, (u64, u64)>, readings: Seq<InterfaceReading>, dt: u64) -> (
    Map<Seq<char>, (u64, u64)>,
    Seq<NetworkInterfaceRecord>,
)
    decreases readings.len(),
{
    if readings.len() == 0 {
        (m, Seq::empty())
    } else {
        let (m1, recs) = net_fold(m, readings.drop_last(), dt);
        let r = readings.last();
        if excluded_name(r.name@) {
            (m1, recs)
        } else {
            let prev = if m1.contains_key(r.name@) {
                m1[r.name@]
            } else {
                (r.rx_total, r.tx_total)
            };
            (m1.insert(r.name@, (r.rx_total, r.tx_total)), recs.push(interface_record(r, prev, dt)))
        }
    }
}

/// Records in descending order of name.
pub open spec fn descending(s: Seq<NetworkInterfaceRecord>) -> bool {
    forall|i: int, j: int| 0 <= i < j < s.len() ==> !name_lt(#[trigger] s[i].name@, #[trigger] s[j].name@)
}

/// `out` is what the sampler publishes for `readings` from totals `m`: the
/// records of `net_fold`, in descending order of name.
pub open spec fn is_publication_of(
    out: Seq<NetworkInterfaceRecord>,
    m: Map<Seq<char>, (u64, u64)>,
    readings: Seq<InterfaceReading>,
    dt: u64,
) -> bool {
    &&& out.to_multiset() == net_fold(m, readings, dt).1.to_multiset()
    &&& descending(out)
}

/// Inserting an element anywhere adds it to the multiset of a sequence.
pub proof fn lemma_insert_to_multiset<A>(s: Seq<A>, p: int, x: A)
    requires
        0 <= p <= s.len(),
    ensures
        s.insert(p, x).to_multiset() == s.to_multiset().insert(x),
{
    broadcast use group_to_multiset_ensures;

    let t = s.insert(p, x);
    assert(t.remove(p) =~= s);
    assert(t[p] == x);
    assert(t.to_multiset().count(x) > 0);
    assert(t.to_multiset() =~= s.to_multiset().insert(x));
}

/// Only interfaces that are not left out ever get totals.
pub proof fn lemma_fold_keeps_out_excluded(
    m: Map<Seq<char>, (u64, u64)>,
    readings: Seq<InterfaceReading>,
    dt: u64,
    name: Seq<char>,
)
    requires
        excluded_name(name),
    ensures
        net_fold(m, readings, dt).0.contains_key(name) == m.contains_key(name),
        forall|i: int|
            0 <= i < net_fold(m, readings, dt).1.len() ==> #[trigger] net_fold(m, readings, dt).1[i].name@
                != name,
    decreases readings.len(),
{
    if readings.len() > 0 {
        lemma_fold_keeps_out_excluded(m, readings.drop_last(), dt, name);
    }
}

/// An interface whose name is left out never appears in a publication,
/// whatever its counters; one that is not left out always does.
pub proof fn lemma_publication_membership(
    out: Seq<NetworkInterfaceRecord>,
    m: Map<Seq<char>, (u64, u64)>,
    readings: Seq<InterfaceReading>,
    dt: u64,
    name: Seq<char>,
)
    requires
        is_publication_of(out, m, readings, dt),
    ensures
        excluded_name(name) ==> forall|i: int| 0 <= i < out.len() ==> #[trigger] out[i].name@ != name,
        !excluded_name(name) && (exists|j: int| 0 <= j < readings.len() && #[trigger] readings[j].name@ == name)
            ==> exists|i: int| 0 <= i < out.len() && #[trigger] out[i].name@ == name,
    decreases readings.len(),
{
    broadcast use group_to_multiset_ensures;

    let recs = net_fold(m, readings, dt).1;
    if excluded_name(name) {
        lemma_fold_keeps_out_excluded(m, readings, dt, name);
        assert forall|i: int| 0 <= i < out.len() implies #[trigger] out[i].name@ != name by {
            assert(out.to_multiset().count(out[i]) > 0);
            assert(recs.contains(out[i]));
        }
    }
    if !excluded_name(name) && (exists|j: int| 0 <= j < readings.len() && #[trigger] readings[j].name@ == name) {
        let j = choose|j: int| 0 <= j < readings.len() && #[trigger] readings[j].name@ == name;
        let k = lemma_fold_records_reading(m, readings, dt, j);
        assert(recs.to_multiset().count(recs[k]) > 0);
        assert(out.contains(recs[k]));
    }
}

/// Each reading that is not left out has a record of its own name.
proof fn lemma_fold_records_reading(
    m: Map<Seq<char>, (u64, u64)>,
    readings: Seq<InterfaceReading>,
    dt: u64,
    j: int,
) -> (k: int)
    requires
        0 <= j < readings.len(),
        !excluded_name(readings[j].name@),
    ensures
        0 <= k < net_fold(m, readings, dt).1.len(),
        net_fold(m, readings, dt).1[k].name@ == readings[j].name@,
    decreases readings.len(),
{
    if j == readings.len() - 1 {
        net_fold(m, readings, dt).1.len() - 1
    } else {
        lemma_fold_records_reading(m, readings.drop_last(), dt, j)
    }
}

impl NetworkSampler {
    pub closed spec fn wf(&self) -> bool {
        &&& forall|i: int|
            0 <= i < self.entries@.len() ==> {
                &&& self.totals@.contains_key(#[trigger] self.entries@[i].name@)
                &&& self.totals@[self.entries@[i].name@] == (self.entries@[i].rx, self.entries@[i].tx)
            }
        &&& forall|k: Seq<char>|
            #[trigger] self.totals@.contains_key(k) ==> exists|i: int|
                0 <= i < self.entries@.len() && #[trigger] self.entries@[i].name@ == k
        &&& forall|i: int, j: int|
            0 <= i < j < self.entries@.len() ==> #[trigger] self.entries@[i].name@
                != #[trigger] self.entries@[j].name@
    }

    /// The previous totals of each tracked interface, by name.
    pub closed spec fn totals(&self) -> Map<Seq<char>, (u64, u64)> {
        self.totals@
    }

    /// When the previous totals were read.
    pub closed spec fn taken_at(&self) -> u64 {
        self.taken_at
    }

    /// The index of the entry for `name`, if there is one.
    fn find(&self, name: &String) -> (r: Option<usize>)
        requires
            self.wf(),
        ensures
            r is None ==> !self.totals().contains_key(name@),
            r matches Some(i) ==> i < self.entries@.len() && self.entries@[i as int].name@ == name@
                && self.totals().contains_key(name@) && self.totals()[name@] == (
                self.entries@[i as int].rx,
                self.entries@[i as int].tx,
            ),
    {
        let mut i: usize = 0;
        while i < self.entries.len()
            invariant
                self.wf(),
                i <= self.entries@.len(),
                forall|j: int| 0 <= j < i ==> #[trigger] self.entries@[j].name@ != name@,
            decreases self.entries@.len() - i,
        {
            if self.entries[i].name == *name {
                return Some(i);
            }
            i = i + 1;
        }
        None
    }

    /// Records `(rx, tx)` as the totals of `name`.
    fn remember(&mut self, name: &String, rx: u64, tx: u64)
        requires
            old(self).wf(),
        ensures
            final(self).wf(),
            final(self).totals() == old(self).totals().insert(name@, (rx, tx)),
            final(self).taken_at() == old(self).taken_at(),
    {
        let ghost m = self.totals@.insert(name@, (rx, tx));
        match self.find(name) {
            Some(i) => {
                self.entries.set(i, BaselineEntry { name: name.clone(), rx, tx });
                self.totals = Ghost(m);
                assert forall|k: Seq<char>| #[trigger] self.totals@.contains_key(k) implies exists|j: int|
                    0 <= j < self.entries@.len() && #[trigger] self.entries@[j].name@ == k by {
                    if k != name@ {
                        let j = choose|j: int|
                            0 <= j < old(self).entries@.len() && #[trigger] old(self).entries@[j].name@ == k;
                        assert(self.entries@[j].name@ == k);
                    } else {
                        assert(self.entries@[i as int].name@ == k);
                    }
                }
            },
            None => {
                self.entries.push(BaselineEntry { name: name.clone(), rx, tx });
                self.totals = Ghost(m);
                let ghost n = self.entries@.len() - 1;
                assert forall|k: Seq<char>| #[trigger] self.totals@.contains_key(k) implies exists|j: int|
                    0 <= j < self.entries@.len() && #[trigger] self.entries@[j].name@ == k by {
                    if k != name@ {
                        let j = choose|j: int|
                            0 <= j < old(self).entries@.len() && #[trigger] old(self).entries@[j].name@ == k;
                        assert(self.entries@[j].name@ == k);
                    } else {
                        assert(self.entries@[n].name@ == k);
                    }
                }
            },
        }
    }

    /// A sampler that tracks nothing yet, as of `now`.
    fn untracked(now: u64) -> (r: NetworkSampler)
        ensures
            r.wf(),
            r.totals() == Map::<Seq<char>, (u64, u64)>::empty(),
            r.taken_at() == now,
    {
        NetworkSampler { entries: Vec::new(), taken_at: now, totals: Ghost(Map::empty()) }
    }

    /// A sampler seeded from a first probe reading taken at `now`: it tracks
    /// the interfaces of that reading that are not left out.
    pub fn new(first: &Vec<InterfaceReading>, now: u64) -> (r: NetworkSampler)
        ensures
            r.wf(),
            r.totals() == net_fold(Map::empty(), first@, 0).0,
            r.taken_at() == now,
    {
        let mut s = NetworkSampler::untracked(now);
        let _ = s.sample(first, now);
        proof {
            lemma_fold_totals_ignore_elapsed(Map::empty(), first@, 0, 0);
        }
        s
    }

    /// One active cycle on fresh `readings` taken at `now`: rates each
    /// interface that is not left out against its previous totals, makes its
    /// current totals the previous ones, and returns the records in
    /// descending order of name.
    pub fn sample(&mut self, readings: &Vec<InterfaceReading>, now: u64) -> (r: Vec<NetworkInterfaceRecord>)
        requires
            old(self).wf(),
        ensures
            final(self).wf(),
            is_publication_of(r@, old(self).totals(), readings@, elapsed_between(old(self).taken_at(), now)),
            final(self).totals() == net_fold(
                old(self).totals(),
                readings@,
                elapsed_between(old(self).taken_at(), now),
            ).0,
            final(self).taken_at() == now,
    {
        broadcast use group_to_multiset_ensures;

        let dt = if now >= self.taken_at {
            now - self.taken_at
        } else {
            0
        };
        let ghost m0 = self.totals@;
        let mut out: Vec<NetworkInterfaceRecord> = Vec::new();
        let mut i: usize = 0;
        while i < readings.len()
            invariant
                self.wf(),
                self.taken_at == old(self).taken_at,
                dt == elapsed_between(old(self).taken_at(), now),
                m0 == old(self).totals(),
                i <= readings@.len(),
                self.totals@ == net_fold(m0, readings@.take(i as int), dt).0,
                out@.to_multiset() == net_fold(m0, readings@.take(i as int), dt).1.to_multiset(),
                descending(out@),
            decreases readings@.len() - i,
        {
            let r = &readings[i];
            assert(readings@.take(i as int + 1).drop_last() =~= readings@.take(i as int));
            assert(readings@.take(i as int + 1).last() == *r);
            if !is_excluded(r.name.as_str()) {
                let (prev_rx, prev_tx) = match self.find(&r.name) {
                    Some(j) => (self.entries[j].rx, self.entries[j].tx),
                    None => (r.rx_total, r.tx_total),
                };
                let rec = NetworkInterfaceRecord {
                    name: r.name.clone(),
                    rx_total: r.rx_total,
                    tx_total: r.tx_total,
                    rx_rate: rate(prev_rx, r.rx_total, dt),
                    tx_rate: rate(prev_tx, r.tx_total, dt),
                };
                assert(rec == interface_record(*r, (prev_rx, prev_tx), dt));
                self.remember(&r.name, r.rx_total, r.tx_total);
                let p = insertion_point(&out, &rec);
                let ghost before = out@;
                out.insert(p, rec);
                proof {
                    lemma_insert_to_multiset(before, p as int, rec);
                    lemma_insert_descending(before, p as int, rec);
                    let rs = readings@.take(i as int + 1);
                    let prev_recs = net_fold(m0, readings@.take(i as int), dt).1;
                    assert(net_fold(m0, rs, dt).1 == prev_recs.push(rec));
                    assert(out@.to_multiset() == before.to_multiset().insert(rec));
                    to_multiset_build(prev_recs, rec);
                }
            } else {
                let ghost rs = readings@.take(i as int + 1);
                assert(net_fold(m0, rs, dt) == net_fold(m0, readings@.take(i as int), dt));
            }
            i = i + 1;
        }
        assert(readings@.take(i as int) =~= readings@);
        self.taken_at = now;
        assert(self.wf());
        out
    }

    /// One cycle of the sampler. While `paused`, the probe is not read, the
    /// previous totals and their time stay as they are and nothing is
    /// published; otherwise `read_probe` refreshes the probe and returns its
    /// interfaces with the time they were read, and their publication is
    /// returned.
    pub fn cycle<F: FnOnce() -> (Vec<InterfaceReading>, u64)>(&mut self, paused: bool, read_probe: F) -> (r: Option<Vec<NetworkInterfaceRecord>>)
        requires
            old(self).wf(),
            paused || read_probe.requires(()),
        ensures
            final(self).wf(),
            paused ==> r is None && final(self).totals() == old(self).totals()
                && final(self).taken_at() == old(self).taken_at(),
            !paused ==> exists|x: (Vec<InterfaceReading>, u64)| {
                let dt = elapsed_between(old(self).taken_at(), x.1);
                &&& #[trigger] read_probe.ensures((), x)
                &&& r is Some
                &&& is_publication_of(r->0@, old(self).totals(), x.0@, dt)
                &&& final(self).totals() == net_fold(old(self).totals(), x.0@, dt).0
                &&& final(self).taken_at() == x.1
            },
    {
        if paused {
            return None;
        }
        let x = read_probe();
        let ghost g = x;
        let out = self.sample(&x.0, x.1);
        assert(read_probe.ensures((), g));
        Some(out)
    }
}

/// The totals that a pass leaves do not depend on the elapsed time.
proof fn lemma_fold_totals_ignore_elapsed(
    m: Map<Seq<char>, (u64, u64)>,
    readings: Seq<InterfaceReading>,
    dt1: u64,
    dt2: u64,
)
    ensures
        net_fold(m, readings, dt1).0 == net_fold(m, readings, dt2).0,
    decreases readings.len(),
{
    if readings.len() > 0 {
        lemma_fold_totals_ignore_elapsed(m, readings.drop_last(), dt1, dt2);
    }
}

#[verifier::rlimit(40)]
proof fn lemma_insert_descending(s: Seq<NetworkInterfaceRecord>, p: int, rec: NetworkInterfaceRecord)
    requires
        descending(s),
        0 <= p <= s.len(),
        forall|i: int| 0 <= i < p ==> !name_lt(#[trigger] s[i].name@, rec.name@),
        p < s.len() ==> name_lt(s[p].name@, rec.name@),
    ensures
        descending(s.insert(p, rec)),
{
    let t = s.insert(p, rec);
    s.insert_ensures(p, rec);
    assert forall|a: int, b: int| 0 <= a < b < t.len() implies !name_lt(
        #[trigger] t[a].name@,
        #[trigger] t[b].name@,
    ) by {
        if b < p {
            assert(t[a] == s[a] && t[b] == s[b]);
            assert(!name_lt(s[a].name@, s[b].name@));
        } else if a < p && b == p {
            assert(t[a] == s[a]);
            assert(!name_lt(s[a].name@, rec.name@));
        } else if a < p && b > p {
            assert(t[a] == s[a] && t[b] == s[b - 1]);
            assert(!name_lt(s[a].name@, s[b - 1].name@));
        } else if a == p {
            assert(t[b] == s[b - 1]);
            if name_lt(rec.name@, s[b - 1].name@) {
                lemma_name_lt_transitive(s[p].name@, rec.name@, s[b - 1].name@);
                if p == b - 1 {
                    lemma_name_lt_irreflexive(s[p].name@);
                } else {
                    assert(!name_lt(s[p].name@, s[b - 1].name@));
                }
            }
        } else {
            assert(t[a] == s[a - 1] && t[b] == s[b - 1]);
            assert(!name_lt(s[a - 1].name@, s[b - 1].name@));
        }
    }
}

/// The first position in `out` whose name comes before that of `rec`.
fn insertion_point(out: &Vec<NetworkInterfaceRecord>, rec: &NetworkInterfaceRecord) -> (p: usize)
    requires
        descending(out@),
    ensures
        p <= out@.len(),
        forall|i: int| 0 <= i < p ==> !name_lt(#[trigger] out@[i].name@, rec.name@),
        p < out@.len() ==> name_lt(out@[p as int].name@, rec.name@),
{
    let mut p: usize = 0;
    while p < out.len()
        invariant
            p <= out@.len(),
            forall|i: int| 0 <= i < p ==> !name_lt(#[trigger] out@[i].name@, rec.name@),
        decreases out@.len() - p,
    {
        if name_less(out[p].name.as_str(), rec.name.as_str()) {
            return p;
        }
        p = p + 1;
    }
    p
}

} // verus!
