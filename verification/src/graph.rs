//! Which packages pull in which: the chains from a direct package to the others.

use vstd::prelude::*;
use crate::packages;
use crate::packages::Dep;
use crate::pieces;
use crate::text;

verus! {

broadcast use {
    vstd::seq::group_seq_axioms,
    vstd::string::group_string_axioms,
    text::views_push,
    text::views_empty,
    packages::group_deps,
};

// ---- chains ----------------------------------------------------------------------------

/// The positions of the packages that each package needs.
pub open spec fn positions(v: Seq<Vec<usize>>) -> Seq<Seq<int>> {
    v.map_values(|w: Vec<usize>| w@.map_values(|k: usize| k as int))
}

/// A package that is direct, or whose chain is known.
pub open spec fn is_reached(d: packages::DepView) -> bool {
    d.is_direct || d.via.len() > 0
}

/// The first package from `from` on that is reached and needs the one at `i`.
pub open spec fn parent_from(
    v: Seq<packages::DepView>,
    needs: Seq<Seq<int>>,
    i: int,
    from: int,
) -> Option<int>
    decreases v.len() - from,
{
    if from < 0 || from >= v.len() || from >= needs.len() {
        None
    } else if is_reached(v[from]) && needs[from].contains(i) {
        Some(from)
    } else {
        parent_from(v, needs, i, from + 1)
    }
}

/// The package at `i`, with its chain where a package that is reached needs it:
/// that package, then its own chain.
pub open spec fn linked(
    v: Seq<packages::DepView>,
    needs: Seq<Seq<int>>,
    i: int,
) -> packages::DepView {
    if is_reached(v[i]) {
        v[i]
    } else {
        match parent_from(v, needs, i, 0) {
            Some(p) => packages::DepView { via: seq![v[p].name] + v[p].via, ..v[i] },
            None => v[i],
        }
    }
}

/// One step from the packages that are reached to those that they need.
pub open spec fn spread(v: Seq<packages::DepView>, needs: Seq<Seq<int>>) -> Seq<
    packages::DepView,
> {
    Seq::new(v.len(), |i: int| linked(v, needs, i))
}

pub open spec fn spread_times(v: Seq<packages::DepView>, needs: Seq<Seq<int>>, n: nat) -> Seq<
    packages::DepView,
>
    decreases n,
{
    if n == 0 {
        v
    } else {
        spread(spread_times(v, needs, (n - 1) as nat), needs)
    }
}

/// The packages with their chains: the shortest that leads from a direct package
/// to each of them, the nearest package first.
pub open spec fn chained(v: Seq<packages::DepView>, needs: Seq<Seq<int>>) -> Seq<
    packages::DepView,
> {
    spread_times(v, needs, v.len())
}

proof fn settled_stays(v: Seq<packages::DepView>, needs: Seq<Seq<int>>, k: nat, n: nat)
    requires
        k <= n,
        spread(spread_times(v, needs, k), needs) == spread_times(v, needs, k),
    ensures
        spread_times(v, needs, n) == spread_times(v, needs, k),
    decreases n,
{
    if k < n {
        settled_stays(v, needs, k, (n - 1) as nat);
    }
}

fn holds(w: &Vec<usize>, i: usize) -> (r: bool)
    ensures
        r == w@.map_values(|k: usize| k as int).contains(i as int),
{
    let ghost all = w@.map_values(|k: usize| k as int);
    let mut j: usize = 0;
    while j < w.len()
        invariant
            j <= w@.len(),
            all == w@.map_values(|k: usize| k as int),
            forall|m: int| 0 <= m < j ==> (#[trigger] all[m]) != i,
        decreases w@.len() - j,
    {
        assert(all[j as int] == w@[j as int]);
        if w[j] == i {
            return true;
        }
        j += 1;
    }
    false
}

fn find_parent(v: &Vec<Dep>, needs: &Vec<Vec<usize>>, i: usize) -> (r: Option<usize>)
    ensures
        text::to_int(r) == parent_from(packages::deps(v@), positions(needs@), i as int, 0),
        r matches Some(p) ==> p < v@.len(),
{
    let ghost all = packages::deps(v@);
    let ghost need = positions(needs@);
    let mut p: usize = 0;
    while p < v.len() && p < needs.len()
        invariant
            p <= v@.len(),
            p <= needs@.len(),
            all == packages::deps(v@),
            need == positions(needs@),
            parent_from(all, need, i as int, 0) == parent_from(all, need, i as int, p as int),
        decreases v@.len() - p,
    {
        assert(all[p as int] == v@[p as int]@);
        assert(need[p as int] == needs@[p as int]@.map_values(|k: usize| k as int));
        assert(text::views(v@[p as int].via@).len() == v@[p as int].via@.len());
        if (v[p].is_direct || v[p].via.len() > 0) && holds(&needs[p], i) {
            return Some(p);
        }
        p += 1;
    }
    None
}

fn link(v: &Vec<Dep>, needs: &Vec<Vec<usize>>, i: usize) -> (r: (Dep, bool))
    requires
        i < v@.len(),
    ensures
        r.0@ == linked(packages::deps(v@), positions(needs@), i as int),
        !r.1 ==> r.0@ == v@[i as int]@,
{
    let ghost all = packages::deps(v@);
    assert(all[i as int] == v@[i as int]@);
    assert(text::views(v@[i as int].via@).len() == v@[i as int].via@.len());
    let mut d = v[i].duplicate();
    if v[i].is_direct || v[i].via.len() > 0 {
        return (d, false);
    }
    match find_parent(v, needs, i) {
        Some(p) => {
            assert(all[p as int] == v@[p as int]@);
            let mut via: Vec<String> = Vec::new();
            via.push(v[p].name.clone());
            let mut more = text::clone_strings(&v[p].via);
            let ghost a = via@;
            let ghost b = more@;
            via.append(&mut more);
            assert(text::views(a + b) =~= text::views(a) + text::views(b));
            assert(text::views(a) =~= seq![v@[p as int].name@]);
            d.via = via;
            (d, true)
        },
        None => (d, false),
    }
}

/// The packages with the chains that lead from a direct package to them.
pub fn with_chains(v: Vec<Dep>, needs: &Vec<Vec<usize>>) -> (r: Vec<Dep>)
    ensures
        packages::deps(r@) == chained(packages::deps(v@), positions(needs@)),
{
    let ghost start = packages::deps(v@);
    let ghost need = positions(needs@);
    let n: usize = v.len();
    let mut now = v;
    let mut round: usize = 0;
    while round < n
        invariant
            round <= n,
            n == start.len(),
            start == packages::deps(v@),
            now@.len() == n,
            need == positions(needs@),
            packages::deps(now@) == spread_times(start, need, round as nat),
        decreases n - round,
    {
        let ghost before = packages::deps(now@);
        let mut next: Vec<Dep> = Vec::new();
        let mut changed = false;
        let mut i: usize = 0;
        while i < n
            invariant
                i <= n,
                now@.len() == n,
                need == positions(needs@),
                before == packages::deps(now@),
                packages::deps(next@) == spread(before, need).take(i as int),
                !changed ==> packages::deps(next@) == before.take(i as int),
            decreases n - i,
        {
            let (d, c) = link(&now, needs, i);
            assert(before[i as int] == now@[i as int]@);
            assert(spread(before, need).take(i + 1) =~= spread(before, need).take(i as int).push(
                spread(before, need)[i as int],
            ));
            assert(before.take(i + 1) =~= before.take(i as int).push(before[i as int]));
            if c {
                changed = true;
            }
            next.push(d);
            i += 1;
        }
        assert(spread(before, need).take(n as int) =~= spread(before, need));
        assert(before.take(n as int) =~= before);
        assert(packages::deps(next@).len() == next@.len());
        if !changed {
            proof {
                settled_stays(start, need, round as nat, n as nat);
            }
            return now;
        }
        now = next;
        round += 1;
    }
    now
}

// ---- who needs whom --------------------------------------------------------------------

/// The first package from `from` on with a name, and with a version where one is
/// asked for.
pub open spec fn package_from(
    v: Seq<packages::DepView>,
    name: Seq<char>,
    version: Option<Seq<char>>,
    from: int,
) -> Option<int>
    decreases v.len() - from,
{
    if from < 0 || from >= v.len() {
        None
    } else if v[from].name == name && (version is None || version == Some(v[from].version)) {
        Some(from)
    } else {
        package_from(v, name, version, from + 1)
    }
}

/// The package that an entry asks for: a name, and a version behind it where the
/// name alone does not tell.
pub open spec fn wanted(v: Seq<packages::DepView>, entry: Seq<char>) -> Option<int> {
    let w = pieces::words(entry);
    if w.len() == 0 {
        None
    } else {
        package_from(
            v,
            w[0],
            if w.len() > 1 {
                Some(w[1])
            } else {
                None
            },
            0,
        )
    }
}

/// The positions of the packages that a list of entries asks for.
pub open spec fn all_wanted(v: Seq<packages::DepView>, entries: Seq<Seq<char>>) -> Seq<int>
    decreases entries.len(),
{
    if entries.len() == 0 {
        Seq::empty()
    } else {
        let before = all_wanted(v, entries.drop_last());
        match wanted(v, entries.last()) {
            Some(k) => before.push(k),
            None => before,
        }
    }
}

/// The positions that each of several lists asks for.
pub open spec fn needs_of(v: Seq<packages::DepView>, lists: Seq<Seq<Seq<char>>>) -> Seq<Seq<int>> {
    lists.map_values(|l: Seq<Seq<char>>| all_wanted(v, l))
}

pub open spec fn text_lists(v: Seq<Vec<String>>) -> Seq<Seq<Seq<char>>> {
    v.map_values(|l: Vec<String>| text::views(l@))
}

pub proof fn text_lists_push(v: Seq<Vec<String>>, l: Vec<String>)
    ensures
        text_lists(v.push(l)) == text_lists(v).push(text::views(l@)),
{
    assert(text_lists(v.push(l)) =~= text_lists(v).push(text::views(l@)));
}

pub(crate) fn find_package(v: &Vec<Dep>, name: &str, version: Option<&str>) -> (r: Option<usize>)
    ensures
        text::to_int(r) == package_from(
            packages::deps(v@),
            name@,
            match version {
                Some(s) => Some(s@),
                None => None,
            },
            0,
        ),
{
    let ghost all = packages::deps(v@);
    let ghost asked = match version {
        Some(s) => Some(s@),
        None => None,
    };
    let mut i: usize = 0;
    while i < v.len()
        invariant
            i <= v@.len(),
            all == packages::deps(v@),
            asked == (match version {
                Some(s) => Some(s@),
                None => None,
            }),
            package_from(all, name@, asked, 0) == package_from(all, name@, asked, i as int),
        decreases v@.len() - i,
    {
        assert(all[i as int] == v@[i as int]@);
        let right = match version {
            Some(s) => text::str_eq(&v[i].version, s),
            None => true,
        };
        if right && text::str_eq(&v[i].name, name) {
            return Some(i);
        }
        i += 1;
    }
    None
}

fn find_wanted(v: &Vec<Dep>, entry: &str) -> (r: Option<usize>)
    ensures
        text::to_int(r) == wanted(packages::deps(v@), entry@),
{
    let w = pieces::str_words(entry);
    assert(text::views(w@).len() == w@.len());
    if w.len() == 0 {
        return None;
    }
    assert(text::views(w@)[0] == w@[0]@);
    if w.len() > 1 {
        assert(text::views(w@)[1] == w@[1]@);
        find_package(v, &w[0], Some(&w[1]))
    } else {
        find_package(v, &w[0], None)
    }
}

/// The packages with their chains, where each comes with the entries that it
/// asks for.
pub fn chain_by_entries(v: Vec<Dep>, lists: &Vec<Vec<String>>) -> (r: Vec<Dep>)
    ensures
        packages::deps(r@) == chained(
            packages::deps(v@),
            needs_of(packages::deps(v@), text_lists(lists@)),
        ),
{
    let ghost all = packages::deps(v@);
    let ghost told = text_lists(lists@);
    let ghost want = needs_of(all, told);
    let mut needs: Vec<Vec<usize>> = Vec::new();
    assert(positions(needs@) =~= want.take(0));
    let mut p: usize = 0;
    while p < lists.len()
        invariant
            p <= lists@.len(),
            all == packages::deps(v@),
            told == text_lists(lists@),
            want == needs_of(all, told),
            positions(needs@) == want.take(p as int),
        decreases lists@.len() - p,
    {
        let ghost entries = text::views(lists@[p as int]@);
        let mut here: Vec<usize> = Vec::new();
        let mut i: usize = 0;
        assert(here@.map_values(|k: usize| k as int) =~= Seq::empty());
        while i < lists[p as usize].len()
            invariant
                p < lists@.len(),
                i <= lists@[p as int]@.len(),
                all == packages::deps(v@),
                entries == text::views(lists@[p as int]@),
                here@.map_values(|k: usize| k as int) == all_wanted(all, entries.take(i as int)),
            decreases lists@[p as int]@.len() - i,
        {
            assert(entries.take(i + 1).drop_last() =~= entries.take(i as int));
            assert(entries.take(i + 1).last() == lists@[p as int]@[i as int]@);
            match find_wanted(&v, &lists[p][i]) {
                Some(k) => {
                    let ghost before = here@;
                    here.push(k);
                    assert(here@.map_values(|k: usize| k as int) =~= before.map_values(
                        |k: usize| k as int,
                    ).push(k as int));
                },
                None => {},
            }
            i += 1;
        }
        assert(entries.take(entries.len() as int) =~= entries);
        assert(told[p as int] == entries);
        let ghost before = needs@;
        needs.push(here);
        assert(positions(needs@) =~= positions(before).push(
            here@.map_values(|k: usize| k as int),
        ));
        assert(want.take(p + 1) =~= want.take(p as int).push(want[p as int]));
        p += 1;
    }
    assert(want.take(want.len() as int) =~= want);
    with_chains(v, &needs)
}

/// The package that stands in the nearest folder of packages: below the first `k`
/// characters of the path `from`, or else further up, or else at the top.
pub open spec fn nearest(
    v: Seq<packages::DepView>,
    from: Seq<char>,
    key: Seq<char>,
    k: int,
) -> Option<int>
    decreases k,
{
    let here = if k == from.len() || text::occurs_at(from, "/node_modules/"@, k) {
        package_from(v, from.take(k) + "/node_modules/"@ + key, None, 0)
    } else {
        None
    };
    if here is Some {
        here
    } else if k <= 0 {
        package_from(v, key, None, 0)
    } else {
        nearest(v, from, key, k - 1)
    }
}

/// The positions of the packages that one in the folder `from` finds by their
/// keys.
pub open spec fn all_nearest(
    v: Seq<packages::DepView>,
    from: Seq<char>,
    keys: Seq<Seq<char>>,
) -> Seq<int>
    decreases keys.len(),
{
    if keys.len() == 0 {
        Seq::empty()
    } else {
        let before = all_nearest(v, from, keys.drop_last());
        match nearest(v, from, keys.last(), from.len() as int) {
            Some(k) => before.push(k),
            None => before,
        }
    }
}

/// The positions that each package finds by its keys.
pub open spec fn found_in_folders(
    v: Seq<packages::DepView>,
    lists: Seq<Seq<Seq<char>>>,
) -> Seq<Seq<int>> {
    Seq::new(lists.len(), |p: int| all_nearest(v, v[p].name, lists[p]))
}

fn find_nearest(v: &Vec<Dep>, from: &str, key: &str) -> (r: Option<usize>)
    ensures
        text::to_int(r) == nearest(packages::deps(v@), from@, key@, from@.len() as int),
{
    let ghost all = packages::deps(v@);
    let c = text::chars_of(from);
    let folder = text::chars_of("/node_modules/");
    let n: usize = c.len();
    let mut k: usize = n;
    loop
        invariant
            k <= n,
            n == c@.len(),
            c@ == from@,
            folder@ == "/node_modules/"@,
            all == packages::deps(v@),
            nearest(all, from@, key@, from@.len() as int) == nearest(all, from@, key@, k as int),
        decreases k,
    {
        if k == n || text::chars_occur_at(&c, &folder, k) {
            let mut path = pieces::str_take(from, k);
            path.push_str("/node_modules/");
            path.push_str(key);
            if let Some(i) = find_package(v, &path, None) {
                return Some(i);
            }
        }
        if k == 0 {
            return find_package(v, key, None);
        }
        k -= 1;
    }
}

/// The packages with their chains, where each comes with the keys that it finds
/// in the folders around it.
pub fn chain_by_folders(v: Vec<Dep>, lists: &Vec<Vec<String>>) -> (r: Vec<Dep>)
    requires
        lists@.len() <= v@.len(),
    ensures
        packages::deps(r@) == chained(
            packages::deps(v@),
            found_in_folders(packages::deps(v@), text_lists(lists@)),
        ),
{
    let ghost all = packages::deps(v@);
    let ghost told = text_lists(lists@);
    let ghost want = found_in_folders(all, told);
    let mut needs: Vec<Vec<usize>> = Vec::new();
    assert(positions(needs@) =~= want.take(0));
    let mut p: usize = 0;
    while p < lists.len()
        invariant
            p <= lists@.len() <= v@.len(),
            all == packages::deps(v@),
            told == text_lists(lists@),
            want == found_in_folders(all, told),
            positions(needs@) == want.take(p as int),
        decreases lists@.len() - p,
    {
        let ghost keys = text::views(lists@[p as int]@);
        let ghost from = v@[p as int].name@;
        assert(all[p as int] == v@[p as int]@);
        let mut here: Vec<usize> = Vec::new();
        let mut i: usize = 0;
        assert(here@.map_values(|k: usize| k as int) =~= Seq::empty());
        while i < lists[p as usize].len()
            invariant
                p < lists@.len() <= v@.len(),
                i <= lists@[p as int]@.len(),
                all == packages::deps(v@),
                from == v@[p as int].name@,
                keys == text::views(lists@[p as int]@),
                here@.map_values(|k: usize| k as int) == all_nearest(
                    all,
                    from,
                    keys.take(i as int),
                ),
            decreases lists@[p as int]@.len() - i,
        {
            assert(keys.take(i + 1).drop_last() =~= keys.take(i as int));
            assert(keys.take(i + 1).last() == lists@[p as int]@[i as int]@);
            match find_nearest(&v, &v[p].name, &lists[p][i]) {
                Some(k) => {
                    let ghost before = here@;
                    here.push(k);
                    assert(here@.map_values(|k: usize| k as int) =~= before.map_values(
                        |k: usize| k as int,
                    ).push(k as int));
                },
                None => {},
            }
            i += 1;
        }
        assert(keys.take(keys.len() as int) =~= keys);
        assert(told[p as int] == keys);
        let ghost before = needs@;
        needs.push(here);
        assert(positions(needs@) =~= positions(before).push(
            here@.map_values(|k: usize| k as int),
        ));
        assert(want.take(p + 1) =~= want.take(p as int).push(want[p as int]));
        p += 1;
    }
    assert(want.take(want.len() as int) =~= want);
    with_chains(v, &needs)
}

// ---- laws ------------------------------------------------------------------------------

/// Every chain is made of steps: the package that comes first in it needs the
/// package that the chain belongs to, and the rest is its own chain.
pub open spec fn chains_hold(v: Seq<packages::DepView>, needs: Seq<Seq<int>>) -> bool {
    forall|i: int|
        0 <= i < v.len() && (#[trigger] v[i]).via.len() > 0 ==> exists|p: int|
            is_parent(v, needs, p, i)
}

/// The package at `p` is reached, needs the one at `i` and begins its chain.
pub open spec fn is_parent(
    v: Seq<packages::DepView>,
    needs: Seq<Seq<int>>,
    p: int,
    i: int,
) -> bool {
    &&& 0 <= p < v.len()
    &&& p < needs.len()
    &&& is_reached(v[p])
    &&& needs[p].contains(i)
    &&& v[i].via == seq![v[p].name] + v[p].via
}

proof fn parent_is_found(v: Seq<packages::DepView>, needs: Seq<Seq<int>>, i: int, from: int)
    requires
        0 <= from,
    ensures
        match parent_from(v, needs, i, from) {
            Some(p) => from <= p < v.len() && p < needs.len() && is_reached(v[p])
                && needs[p].contains(i),
            None => forall|p: int|
                from <= p < v.len() && p < needs.len() && is_reached(#[trigger] v[p])
                    ==> !needs[p].contains(i),
        },
    decreases v.len() - from,
{
    if from < v.len() && from < needs.len() && !(is_reached(v[from]) && needs[from].contains(i)) {
        parent_is_found(v, needs, i, from + 1);
    }
}

proof fn spreading_keeps_chains(v: Seq<packages::DepView>, needs: Seq<Seq<int>>)
    requires
        chains_hold(v, needs),
    ensures
        chains_hold(spread(v, needs), needs),
{
    let w = spread(v, needs);
    assert forall|i: int| 0 <= i < w.len() && (#[trigger] w[i]).via.len() > 0 implies exists|p: int|
        is_parent(w, needs, p, i) by {
        if is_reached(v[i]) {
            let p = choose|p: int| is_parent(v, needs, p, i);
            assert(is_parent(w, needs, p, i));
        } else {
            parent_is_found(v, needs, i, 0);
            let p = parent_from(v, needs, i, 0)->0;
            assert(is_parent(w, needs, p, i));
        }
    }
}

proof fn times_keep_chains(v: Seq<packages::DepView>, needs: Seq<Seq<int>>, n: nat)
    requires
        chains_hold(v, needs),
    ensures
        chains_hold(spread_times(v, needs, n), needs),
        spread_times(v, needs, n).len() == v.len(),
    decreases n,
{
    if n > 0 {
        times_keep_chains(v, needs, (n - 1) as nat);
        spreading_keeps_chains(spread_times(v, needs, (n - 1) as nat), needs);
    }
}

/// A chain leads from a direct package to the package that it belongs to, and
/// each package in it needs the one before.
pub proof fn chains_lead_from_direct_packages(
    v: Seq<packages::DepView>,
    needs: Seq<Seq<int>>,
    i: int,
)
    requires
        forall|k: int| 0 <= k < v.len() ==> (#[trigger] v[k]).via.len() == 0,
        0 <= i < v.len(),
        chained(v, needs)[i].via.len() > 0,
    ensures
        exists|p: int| is_parent(chained(v, needs), needs, p, i),
{
    times_keep_chains(v, needs, v.len());
    assert(chained(v, needs)[i].via.len() > 0);
}

/// How many of the first `n` packages are not reached.
pub open spec fn open_ends(v: Seq<packages::DepView>, n: int) -> int
    decreases n,
{
    if n <= 0 {
        0
    } else {
        open_ends(v, n - 1) + (if is_reached(v[n - 1]) {
            0int
        } else {
            1
        })
    }
}

proof fn spreading_closes_ends(v: Seq<packages::DepView>, needs: Seq<Seq<int>>, n: int)
    requires
        0 <= n <= v.len(),
    ensures
        0 <= open_ends(spread(v, needs), n) <= open_ends(v, n) <= n,
        open_ends(spread(v, needs), n) == open_ends(v, n) ==> forall|i: int|
            0 <= i < n ==> spread(v, needs)[i] == v[i],
        open_ends(v, n) == 0 ==> forall|i: int| 0 <= i < n ==> is_reached(#[trigger] v[i]),
    decreases n,
{
    if n > 0 {
        spreading_closes_ends(v, needs, n - 1);
    }
}

proof fn rounds_close_ends(v: Seq<packages::DepView>, needs: Seq<Seq<int>>, k: nat)
    ensures
        spread_times(v, needs, k).len() == v.len(),
        spread(spread_times(v, needs, k), needs) == spread_times(v, needs, k) || open_ends(
            spread_times(v, needs, k),
            v.len() as int,
        ) + k <= v.len(),
    decreases k,
{
    if k == 0 {
        spreading_closes_ends(v, needs, v.len() as int);
    } else {
        let before = spread_times(v, needs, (k - 1) as nat);
        rounds_close_ends(v, needs, (k - 1) as nat);
        spreading_closes_ends(before, needs, v.len() as int);
        let w = spread(before, needs);
        if w == before {
        } else if open_ends(w, v.len() as int) == open_ends(before, v.len() as int) {
            assert(w =~= before);
        }
    }
}

/// What a package that is reached needs is reached too: no chain is left out.
pub proof fn needed_packages_are_reached(
    v: Seq<packages::DepView>,
    needs: Seq<Seq<int>>,
    p: int,
    i: int,
)
    requires
        0 <= p < v.len(),
        p < needs.len(),
        0 <= i < v.len(),
        needs[p].contains(i),
        is_reached(chained(v, needs)[p]),
    ensures
        is_reached(chained(v, needs)[i]),
{
    let w = chained(v, needs);
    rounds_close_ends(v, needs, v.len());
    spreading_closes_ends(w, needs, v.len() as int);
    if spread(w, needs) == w {
        if !is_reached(w[i]) {
            parent_is_found(w, needs, i, 0);
            assert(spread(w, needs)[i] == linked(w, needs, i));
            assert(is_reached(w[p]));
        }
    } else {
        assert(is_reached(w[i]));
    }
}

} // verus!
