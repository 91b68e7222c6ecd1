//! Severity labels: their order, their colours, ranking and thresholds.

use vstd::prelude::*;
use crate::digits;
use crate::text;

verus! {

broadcast use {vstd::seq::group_seq_axioms, vstd::string::group_string_axioms};

// ---- labels ------------------------------------------------------------------------

/// The rank of a severity label, whatever the case of its letters.
pub open spec fn level(label: Seq<char>) -> u8 {
    let l = text::lowercase(label);
    if l == "critical"@ {
        4
    } else if l == "high"@ {
        3
    } else if l == "medium"@ {
        2
    } else if l == "low"@ {
        1
    } else {
        0
    }
}

/// The rank of a severity label, from nothing to critical.
pub fn severity_level(label: &str) -> (r: u8)
    ensures
        r == level(label@),
        r <= 4,
{
    let l = text::to_lowercase(label);
    if text::str_eq(&l, "critical") {
        4
    } else if text::str_eq(&l, "high") {
        3
    } else if text::str_eq(&l, "medium") {
        2
    } else if text::str_eq(&l, "low") {
        1
    } else {
        0
    }
}

/// The terminal code of a rank.
pub open spec fn level_color(n: u8) -> Seq<char> {
    if n == 4 {
        "\x1b[1;31m"@
    } else if n == 3 {
        "\x1b[31m"@
    } else if n == 2 {
        "\x1b[33m"@
    } else if n == 1 {
        "\x1b[36m"@
    } else {
        "\x1b[0m"@
    }
}

/// The terminal code that begins a severity's colour.
pub fn sast_severity_color(label: &str) -> (r: &'static str)
    ensures
        r@ == level_color(level(label@)),
{
    let n = severity_level(label);
    if n == 4 {
        "\x1b[1;31m"
    } else if n == 3 {
        "\x1b[31m"
    } else if n == 2 {
        "\x1b[33m"
    } else if n == 1 {
        "\x1b[36m"
    } else {
        "\x1b[0m"
    }
}

// ---- what has a severity -------------------------------------------------------------

/// Something with a severity label.
pub trait Rated: View + Sized {
    /// The label.
    spec fn label(v: Self::V) -> Seq<char>;

    fn severity(&self) -> (r: &str)
        ensures
            r@ == Self::label(self@),
    ;

    fn duplicate(&self) -> (r: Self)
        ensures
            r@ == self@,
    ;
}

/// The views of a list.
pub open spec fn seen<T: View>(v: Seq<T>) -> Seq<T::V> {
    v.map_values(|x: T| x@)
}

pub proof fn seen_push<T: View>(v: Seq<T>, x: T)
    ensures
        seen(v.push(x)) == seen(v).push(x@),
{
    assert(seen(v.push(x)) =~= seen(v).push(x@));
}

/// The entries of one rank among the first `n`, in order.
pub open spec fn of_level<T: Rated>(v: Seq<T::V>, rank: u8, n: int) -> Seq<T::V>
    decreases n,
{
    if n <= 0 {
        Seq::empty()
    } else if level(T::label(v[n - 1])) == rank {
        of_level::<T>(v, rank, n - 1).push(v[n - 1])
    } else {
        of_level::<T>(v, rank, n - 1)
    }
}

/// The entries from rank `top` down to the lowest; those of one rank keep
/// their order.
pub open spec fn ranked_from<T: Rated>(v: Seq<T::V>, top: int) -> Seq<T::V>
    decreases top + 1,
{
    if top < 0 {
        Seq::empty()
    } else {
        of_level::<T>(v, top as u8, v.len() as int) + ranked_from::<T>(v, top - 1)
    }
}

/// The entries, the most severe first.
pub open spec fn ranked<T: Rated>(v: Seq<T::V>) -> Seq<T::V> {
    ranked_from::<T>(v, 4)
}

fn append_level<T: Rated>(out: &mut Vec<T>, v: &Vec<T>, rank: u8)
    ensures
        seen(final(out)@) == seen(old(out)@) + of_level::<T>(seen(v@), rank, v@.len() as int),
{
    let ghost start = seen(out@);
    let ghost all = seen(v@);
    assert(start + of_level::<T>(all, rank, 0) =~= start);
    let mut i: usize = 0;
    while i < v.len()
        invariant
            i <= v@.len(),
            all == seen(v@),
            seen(out@) == start + of_level::<T>(all, rank, i as int),
        decreases v@.len() - i,
    {
        assert(all[i as int] == v@[i as int]@);
        let ghost part = of_level::<T>(all, rank, i as int);
        if severity_level(v[i].severity()) == rank {
            let x = v[i].duplicate();
            proof {
                seen_push(out@, x);
                assert((start + part).push(x@) =~= start + part.push(x@));
            }
            out.push(x);
        }
        i += 1;
    }
}

/// The entries, the most severe first; those of one severity keep their order.
pub fn rank<T: Rated>(v: &Vec<T>) -> (r: Vec<T>)
    ensures
        seen(r@) == ranked::<T>(seen(v@)),
{
    let mut out: Vec<T> = Vec::new();
    let ghost all = seen(v@);
    let ghost n = all.len() as int;
    assert(seen(out@) =~= Seq::empty());
    append_level(&mut out, v, 4);
    append_level(&mut out, v, 3);
    append_level(&mut out, v, 2);
    append_level(&mut out, v, 1);
    append_level(&mut out, v, 0);
    proof {
        reveal_with_fuel(ranked_from, 7);
        assert(seen(out@) =~= ranked::<T>(all));
    }
    out
}

/// The number of entries of at least a rank among the first `n`.
pub open spec fn count_from<T: Rated>(v: Seq<T::V>, least: u8, n: int) -> nat
    decreases n,
{
    if n <= 0 {
        0
    } else {
        count_from::<T>(v, least, n - 1) + (if level(T::label(v[n - 1])) >= least {
            1nat
        } else {
            0
        })
    }
}

/// The number of entries at or above a threshold.
pub open spec fn blocking<T: Rated>(v: Seq<T::V>, threshold: Seq<char>) -> nat {
    count_from::<T>(v, level(threshold), v.len() as int)
}

/// The number of entries at or above a threshold.
pub fn count_blocking<T: Rated>(v: &Vec<T>, threshold: &str) -> (r: usize)
    ensures
        r == blocking::<T>(seen(v@), threshold@),
{
    let least = severity_level(threshold);
    let ghost all = seen(v@);
    let mut n: usize = 0;
    let mut i: usize = 0;
    while i < v.len()
        invariant
            i <= v@.len(),
            n <= i,
            all == seen(v@),
            least == level(threshold@),
            n == count_from::<T>(all, least, i as int),
        decreases v@.len() - i,
    {
        assert(all[i as int] == v@[i as int]@);
        if severity_level(v[i].severity()) >= least {
            n += 1;
        }
        i += 1;
    }
    n
}

/// Whether a build fails: why, where there is a threshold and an entry at or
/// above it.
pub open spec fn gate_text<T: Rated>(
    v: Seq<T::V>,
    threshold: Option<Seq<char>>,
    kind: Seq<char>,
) -> Option<Seq<char>> {
    match threshold {
        Some(t) if blocking::<T>(v, t) > 0 => Some(
            digits::dec(blocking::<T>(v, t)) + kind + " finding(s) at or above '"@ + t
                + "' severity"@,
        ),
        _ => None,
    }
}

/// Why a build fails, where it does: `kind` stands before the word.
pub fn gate<T: Rated>(v: &Vec<T>, threshold: &Option<String>, kind: &str) -> (r: Option<String>)
    ensures
        text::opt_view(r) == gate_text::<T>(seen(v@), text::opt_view(*threshold), kind@),
{
    match threshold {
        None => None,
        Some(t) => {
            let n = count_blocking(v, t);
            if n == 0 {
                None
            } else {
                let mut s = digits::usize_to_string(n);
                s.push_str(kind);
                s.push_str(" finding(s) at or above '");
                s.push_str(t);
                s.push_str("' severity");
                Some(s)
            }
        },
    }
}

/// The number of entries whose label, in lower case, is that word, among the
/// first `n`.
pub open spec fn labelled<T: Rated>(v: Seq<T::V>, word: Seq<char>, n: int) -> nat
    decreases n,
{
    if n <= 0 {
        0
    } else {
        labelled::<T>(v, word, n - 1) + (if text::lowercase(T::label(v[n - 1])) == word {
            1nat
        } else {
            0
        })
    }
}

/// The number of entries whose label is that word, whatever the case.
pub fn count_labelled<T: Rated>(v: &Vec<T>, word: &str) -> (r: usize)
    ensures
        r == labelled::<T>(seen(v@), word@, v@.len() as int),
{
    let ghost all = seen(v@);
    let mut n: usize = 0;
    let mut i: usize = 0;
    while i < v.len()
        invariant
            i <= v@.len(),
            n <= i,
            all == seen(v@),
            n == labelled::<T>(all, word@, i as int),
        decreases v@.len() - i,
    {
        assert(all[i as int] == v@[i as int]@);
        let l = text::to_lowercase(v[i].severity());
        if text::str_eq(&l, word) {
            n += 1;
        }
        i += 1;
    }
    n
}

/// Entries of at least a rank among the first `n`, in order.
pub open spec fn at_least<T: Rated>(v: Seq<T::V>, least: u8, n: int) -> Seq<T::V>
    decreases n,
{
    if n <= 0 {
        Seq::empty()
    } else if level(T::label(v[n - 1])) >= least {
        at_least::<T>(v, least, n - 1).push(v[n - 1])
    } else {
        at_least::<T>(v, least, n - 1)
    }
}

/// The entries at or above a threshold, in order.
pub fn keep_at_least<T: Rated>(v: &Vec<T>, threshold: &str) -> (r: Vec<T>)
    ensures
        seen(r@) == at_least::<T>(seen(v@), level(threshold@), v@.len() as int),
{
    let least = severity_level(threshold);
    let ghost all = seen(v@);
    let mut out: Vec<T> = Vec::new();
    assert(seen(out@) =~= Seq::empty());
    let mut i: usize = 0;
    while i < v.len()
        invariant
            i <= v@.len(),
            all == seen(v@),
            least == level(threshold@),
            seen(out@) == at_least::<T>(all, least, i as int),
        decreases v@.len() - i,
    {
        assert(all[i as int] == v@[i as int]@);
        if severity_level(v[i].severity()) >= least {
            let x = v[i].duplicate();
            proof {
                seen_push(out@, x);
            }
            out.push(x);
        }
        i += 1;
    }
    out
}

// ---- what ranking and thresholds promise -----------------------------------------------

proof fn of_level_count<T: Rated>(v: Seq<T::V>, rank: u8, n: int, x: T::V)
    requires
        0 <= n <= v.len(),
    ensures
        of_level::<T>(v, rank, n).to_multiset().count(x) == (if level(T::label(x)) == rank {
            v.take(n).to_multiset().count(x)
        } else {
            0
        }),
        forall|i: int|
            0 <= i < of_level::<T>(v, rank, n).len() ==> level(
                T::label(#[trigger] of_level::<T>(v, rank, n)[i]),
            ) == rank,
    decreases n,
{
    broadcast use vstd::seq_lib::group_to_multiset_ensures;

    if n <= 0 {
        assert(v.take(0) =~= Seq::empty());
    } else {
        of_level_count::<T>(v, rank, n - 1, x);
        assert(v.take(n) =~= v.take(n - 1).push(v[n - 1]));
    }
}

proof fn ranked_from_facts<T: Rated>(v: Seq<T::V>, top: int, x: T::V)
    requires
        top <= 4,
    ensures
        ranked_from::<T>(v, top).to_multiset().count(x) == (if level(T::label(x)) <= top {
            v.to_multiset().count(x)
        } else {
            0
        }),
        forall|i: int|
            0 <= i < ranked_from::<T>(v, top).len() ==> level(
                T::label(#[trigger] ranked_from::<T>(v, top)[i]),
            ) <= top,
        forall|i: int, j: int|
            0 <= i <= j < ranked_from::<T>(v, top).len() ==> level(
                T::label(#[trigger] ranked_from::<T>(v, top)[i]),
            ) >= level(T::label(#[trigger] ranked_from::<T>(v, top)[j])),
    decreases top + 1,
{
    broadcast use vstd::seq_lib::group_to_multiset_ensures;

    if top < 0 {
        assert(ranked_from::<T>(v, top) =~= Seq::empty());
    } else {
        let a = of_level::<T>(v, top as u8, v.len() as int);
        let b = ranked_from::<T>(v, top - 1);
        of_level_count::<T>(v, top as u8, v.len() as int, x);
        ranked_from_facts::<T>(v, top - 1, x);
        assert(v.take(v.len() as int) =~= v);
        vstd::seq_lib::lemma_multiset_commutative(a, b);
        assert((a + b).to_multiset().count(x) == a.to_multiset().count(x) + b.to_multiset().count(x));
        assert forall|i: int, j: int| 0 <= i <= j < (a + b).len() implies level(
            T::label(#[trigger] (a + b)[i]),
        ) >= level(T::label(#[trigger] (a + b)[j])) by {
            if j < a.len() {
                assert(level(T::label(a[i])) == top);
                assert(level(T::label(a[j])) == top);
            } else if i < a.len() {
                assert(level(T::label(a[i])) == top);
                assert(level(T::label(b[j - a.len()])) <= top - 1);
            } else {
                assert(b[i - a.len()] == (a + b)[i]);
                assert(b[j - a.len()] == (a + b)[j]);
            }
        }
    }
}

/// Ranking only reorders, and puts nothing below what is less severe.
pub proof fn ranking_sorts<T: Rated>(v: Seq<T::V>)
    ensures
        ranked::<T>(v).to_multiset() == v.to_multiset(),
        forall|i: int, j: int|
            0 <= i <= j < ranked::<T>(v).len() ==> level(
                T::label(#[trigger] ranked::<T>(v)[i]),
            ) >= level(T::label(#[trigger] ranked::<T>(v)[j])),
{
    assert forall|x: T::V| ranked::<T>(v).to_multiset().count(x) == #[trigger] v.to_multiset().count(x) by {
        ranked_from_facts::<T>(v, 4, x);
    }
    assert(ranked::<T>(v).to_multiset() =~= v.to_multiset());
    assert forall|i: int, j: int| 0 <= i <= j < ranked::<T>(v).len() implies level(
        T::label(#[trigger] ranked::<T>(v)[i]),
    ) >= level(T::label(#[trigger] ranked::<T>(v)[j])) by {
        ranked_from_facts::<T>(v, 4, v[0]);
    }
}

proof fn count_is_none<T: Rated>(v: Seq<T::V>, least: u8, n: int)
    requires
        n <= v.len(),
    ensures
        count_from::<T>(v, least, n) == 0 <==> forall|i: int|
            0 <= i < n ==> level(T::label(#[trigger] v[i])) < least,
    decreases n,
{
    if n > 0 {
        count_is_none::<T>(v, least, n - 1);
    }
}

/// A build with a threshold passes exactly when every entry is below it; one
/// without a threshold always passes.
pub proof fn gate_passes_iff_all_below<T: Rated>(
    v: Seq<T::V>,
    threshold: Option<Seq<char>>,
    kind: Seq<char>,
)
    ensures
        gate_text::<T>(v, threshold, kind) is None <==> (threshold matches Some(t) ==> forall|i: int|
            0 <= i < v.len() ==> level(T::label(#[trigger] v[i])) < level(t)),
{
    match threshold {
        Some(t) => {
            count_is_none::<T>(v, level(t), v.len() as int);
        },
        None => {},
    }
}

} // verus!
