//! Interface names: their order, and which of them the network sampler
//! leaves out.

use vstd::prelude::*;

verus! {

/// `a` comes before `b` in the order of `str`: lexicographic by code point,
/// a proper prefix first.
pub open spec fn name_lt(a: Seq<char>, b: Seq<char>) -> bool
    decreases a.len(),
{
    if a.len() == 0 {
        b.len() > 0
    } else if b.len() == 0 {
        false
    } else if a[0] != b[0] {
        (a[0] as u32) < (b[0] as u32)
    } else {
        name_lt(a.drop_first(), b.drop_first())
    }
}

pub proof fn lemma_name_lt_transitive(a: Seq<char>, b: Seq<char>, c: Seq<char>)
    requires
        name_lt(a, b),
        name_lt(b, c),
    ensures
        name_lt(a, c),
    decreases a.len(),
{
    if a.len() > 0 && b.len() > 0 && c.len() > 0 && a[0] == b[0] && b[0] == c[0] {
        lemma_name_lt_transitive(a.drop_first(), b.drop_first(), c.drop_first());
    }
}

pub proof fn lemma_name_lt_irreflexive(a: Seq<char>)
    ensures
        !name_lt(a, a),
    decreases a.len(),
{
    if a.len() > 0 {
        lemma_name_lt_irreflexive(a.drop_first());
    }
}

/// Whether `a` comes before `b`, comparing character by character.
pub fn name_less(a: &str, b: &str) -> (r: bool)
    ensures
        r == name_lt(a@, b@),
{
    let na = a.unicode_len();
    let nb = b.unicode_len();
    let mut i: usize = 0;
    assert(a@.skip(0) =~= a@ && b@.skip(0) =~= b@);
    while i < na && i < nb
        invariant
            na == a@.len(),
            nb == b@.len(),
            i <= na,
            i <= nb,
            name_lt(a@, b@) == name_lt(a@.skip(i as int), b@.skip(i as int)),
        decreases na - i,
    {
        let ca = a.get_char(i);
        let cb = b.get_char(i);
        assert(a@.skip(i as int)[0] == ca);
        assert(b@.skip(i as int)[0] == cb);
        if ca != cb {
            return (ca as u32) < (cb as u32);
        }
        assert(a@.skip(i as int).drop_first() =~= a@.skip(i as int + 1));
        assert(b@.skip(i as int).drop_first() =~= b@.skip(i as int + 1));
        i = i + 1;
    }
    i == na && i < nb
}

/// `p` occurs in `s` at position `k`.
pub open spec fn occurs_at(s: Seq<char>, p: Seq<char>, k: int) -> bool {
    0 <= k && k + p.len() <= s.len() && s.subrange(k, k + p.len()) == p
}

/// `s` begins with `p`.
pub open spec fn begins_with(s: Seq<char>, p: Seq<char>) -> bool {
    occurs_at(s, p, 0)
}

/// `p` occurs somewhere in `s`.
pub open spec fn holds(s: Seq<char>, p: Seq<char>) -> bool {
    exists|k: int| occurs_at(s, p, k)
}

/// Whether `p` occurs in `s` at position `k`.
fn matches_at(s: &str, p: &str, k: usize) -> (r: bool)
    ensures
        r == occurs_at(s@, p@, k as int),
{
    let n = s.unicode_len();
    let m = p.unicode_len();
    if k > n || m > n - k {
        return false;
    }
    let mut j: usize = 0;
    while j < m
        invariant
            n == s@.len(),
            m == p@.len(),
            k + m <= n,
            j <= m,
            s@.subrange(k as int, k + j) == p@.subrange(0, j as int),
        decreases m - j,
    {
        if s.get_char(k + j) != p.get_char(j) {
            assert(s@.subrange(k as int, k + m)[j as int] != p@[j as int]);
            return false;
        }
        j = j + 1;
        assert(s@.subrange(k as int, k + j) =~= p@.subrange(0, j as int));
    }
    assert(p@.subrange(0, m as int) =~= p@);
    true
}

/// Whether `s` begins with `p`.
pub fn starts_with_chars(s: &str, p: &str) -> (r: bool)
    ensures
        r == begins_with(s@, p@),
{
    matches_at(s, p, 0)
}

/// Whether `p` occurs anywhere in `s`.
pub fn contains_chars(s: &str, p: &str) -> (r: bool)
    ensures
        r == holds(s@, p@),
{
    let n = s.unicode_len();
    let m = p.unicode_len();
    if m > n {
        return false;
    }
    let mut k: usize = 0;
    while k < n - m
        invariant
            n == s@.len(),
            m == p@.len(),
            m <= n,
            k <= n - m,
            forall|j: int| 0 <= j < k ==> !occurs_at(s@, p@, j),
        decreases n - m - k,
    {
        if matches_at(s, p, k) {
            return true;
        }
        k = k + 1;
    }
    let r = matches_at(s, p, k);
    assert(!r ==> forall|j: int| !occurs_at(s@, p@, j));
    r
}

/// What `str::to_lowercase` makes of a string.
pub uninterp spec fn lower_of(s: Seq<char>) -> Seq<char>;

/// Relies on `str::to_lowercase`: the lower-case form of a string depends on
/// its characters alone.
#[verifier::external_body]
fn to_lower(s: &str) -> (r: String)
    ensures
        r@ == lower_of(s@),
{
    s.to_lowercase()
}

/// A lower-cased interface name is left out when it names a loopback, bridge,
/// container, virtual or packet-capture interface.
pub open spec fn excluded_lower(l: Seq<char>) -> bool {
    ||| holds(l, seq!['n', 'p', 'c', 'a', 'p'])
    ||| holds(l, seq!['n', 'o', 'c', 'a', 'p'])
    ||| begins_with(l, seq!['l', 'o'])
    ||| begins_with(l, seq!['d', 'o', 'c', 'k', 'e', 'r'])
    ||| begins_with(l, seq!['v', 'e', 't', 'h'])
    ||| begins_with(l, seq!['b', 'r', '-'])
    ||| begins_with(l, seq!['v', 'i', 'r'])
}

/// An interface is left out when its lower-cased name is.
pub open spec fn excluded_name(name: Seq<char>) -> bool {
    excluded_lower(lower_of(name))
}

/// Whether an already lower-cased interface name is left out.
pub fn is_excluded_lowercase(l: &str) -> (r: bool)
    ensures
        r == excluded_lower(l@),
{
    proof {
        reveal_strlit("npcap");
        reveal_strlit("nocap");
        reveal_strlit("lo");
        reveal_strlit("docker");
        reveal_strlit("veth");
        reveal_strlit("br-");
        reveal_strlit("vir");
    }
    let a = contains_chars(l, "npcap");
    let b = contains_chars(l, "nocap");
    let c = starts_with_chars(l, "lo");
    let d = starts_with_chars(l, "docker");
    let e = starts_with_chars(l, "veth");
    let f = starts_with_chars(l, "br-");
    let g = starts_with_chars(l, "vir");
    assert("npcap"@ =~= seq!['n', 'p', 'c', 'a', 'p']);
    assert("nocap"@ =~= seq!['n', 'o', 'c', 'a', 'p']);
    assert("lo"@ =~= seq!['l', 'o']);
    assert("docker"@ =~= seq!['d', 'o', 'c', 'k', 'e', 'r']);
    assert("veth"@ =~= seq!['v', 'e', 't', 'h']);
    assert("br-"@ =~= seq!['b', 'r', '-']);
    assert("vir"@ =~= seq!['v', 'i', 'r']);
    a || b || c || d || e || f || g
}

/// Whether the network sampler leaves out the interface called `name`.
pub fn is_excluded(name: &str) -> (r: bool)
    ensures
        r == excluded_name(name@),
{
    let l = to_lower(name);
    is_excluded_lowercase(l.as_str())
}

} // verus!
