//! The packages that a project depends on.

use vstd::prelude::*;
use crate::order;
use crate::text;

verus! {

broadcast use {
    vstd::seq::group_seq_axioms,
    vstd::string::group_string_axioms,
    text::views_push,
    text::views_empty,
};

/// A package in a version, and how it came in: the packages that pull it in,
/// the innermost first, and the file that names it.
#[derive(Clone, Debug)]
pub struct Dep {
    pub name: String,
    pub version: String,
    pub ecosystem: String,
    pub is_direct: bool,
    pub via: Vec<String>,
    pub manifest: String,
}

pub struct DepView {
    pub name: Seq<char>,
    pub version: Seq<char>,
    pub ecosystem: Seq<char>,
    pub is_direct: bool,
    pub via: Seq<Seq<char>>,
    pub manifest: Seq<char>,
}

impl View for Dep {
    type V = DepView;

    open spec fn view(&self) -> DepView {
        DepView {
            name: self.name@,
            version: self.version@,
            ecosystem: self.ecosystem@,
            is_direct: self.is_direct,
            via: text::views(self.via@),
            manifest: self.manifest@,
        }
    }
}

pub open spec fn deps(v: Seq<Dep>) -> Seq<DepView> {
    v.map_values(|d: Dep| d@)
}

pub broadcast proof fn deps_push(v: Seq<Dep>, d: Dep)
    ensures
        #[trigger] deps(v.push(d)) == deps(v).push(d@),
{
    assert(deps(v.push(d)) =~= deps(v).push(d@));
}

pub broadcast proof fn deps_empty()
    ensures
        #[trigger] deps(Seq::<Dep>::empty()) == Seq::<DepView>::empty(),
{
    assert(deps(Seq::<Dep>::empty()) =~= Seq::<DepView>::empty());
}

pub broadcast group group_deps {
    deps_push,
    deps_empty,
}

/// A package that a file names itself.
pub open spec fn named(
    name: Seq<char>,
    version: Seq<char>,
    ecosystem: Seq<char>,
    is_direct: bool,
    manifest: Seq<char>,
) -> DepView {
    DepView { name, version, ecosystem, is_direct, via: Seq::empty(), manifest }
}

impl Dep {
    /// A package that a file names itself.
    pub fn named(
        name: String,
        version: String,
        ecosystem: &str,
        is_direct: bool,
        manifest: &str,
    ) -> (r: Dep)
        ensures
            r@ == named(name@, version@, ecosystem@, is_direct, manifest@),
    {
        Dep {
            name,
            version,
            ecosystem: ecosystem.to_owned(),
            is_direct,
            via: Vec::new(),
            manifest: manifest.to_owned(),
        }
    }

    pub fn duplicate(&self) -> (r: Dep)
        ensures
            r@ == self@,
    {
        Dep {
            name: self.name.clone(),
            version: self.version.clone(),
            ecosystem: self.ecosystem.clone(),
            is_direct: self.is_direct,
            via: text::clone_strings(&self.via),
            manifest: self.manifest.clone(),
        }
    }
}

/// Appends packages.
pub fn append(out: &mut Vec<Dep>, more: Vec<Dep>)
    ensures
        deps(final(out)@) == deps(old(out)@) + deps(more@),
{
    let mut rest = more;
    let ghost a = out@;
    let ghost b = rest@;
    out.append(&mut rest);
    assert(deps(a + b) =~= deps(a) + deps(b));
}

// ---- each package once ------------------------------------------------------------------

/// Two entries name the same package: ecosystem, version and name are the
/// same, the name whatever its case.
pub open spec fn same_package(a: DepView, b: DepView) -> bool {
    a.ecosystem == b.ecosystem && text::lowercase(a.name) == text::lowercase(b.name) && a.version
        == b.version
}

/// The package is in the list.
pub open spec fn has_package(v: Seq<DepView>, d: DepView) -> bool {
    exists|i: int| 0 <= i < v.len() && same_package(#[trigger] v[i], d)
}

/// Every package once, where it occurs first.
pub open spec fn unique(v: Seq<DepView>) -> Seq<DepView>
    decreases v.len(),
{
    if v.len() == 0 {
        Seq::empty()
    } else {
        let before = unique(v.drop_last());
        if has_package(before, v.last()) {
            before
        } else {
            before.push(v.last())
        }
    }
}

fn is_same_package(a: &Dep, b: &Dep) -> (r: bool)
    ensures
        r == same_package(a@, b@),
{
    let x = text::to_lowercase(&a.name);
    let y = text::to_lowercase(&b.name);
    text::str_eq(&a.ecosystem, &b.ecosystem) && text::str_eq(&x, &y) && text::str_eq(
        &a.version,
        &b.version,
    )
}

fn knows_package(v: &Vec<Dep>, d: &Dep) -> (r: bool)
    ensures
        r == has_package(deps(v@), d@),
{
    let mut i: usize = 0;
    while i < v.len()
        invariant
            i <= v@.len(),
            forall|k: int| 0 <= k < i ==> !same_package(#[trigger] deps(v@)[k], d@),
        decreases v@.len() - i,
    {
        assert(deps(v@)[i as int] == v@[i as int]@);
        if is_same_package(&v[i], d) {
            return true;
        }
        i += 1;
    }
    false
}

/// Every package once, where it occurs first.
pub fn dedup(v: &Vec<Dep>) -> (r: Vec<Dep>)
    ensures
        deps(r@) == unique(deps(v@)),
{
    broadcast use group_deps;

    let ghost all = deps(v@);
    let mut out: Vec<Dep> = Vec::new();
    let mut i: usize = 0;
    while i < v.len()
        invariant
            i <= v@.len(),
            all == deps(v@),
            deps(out@) == unique(all.take(i as int)),
        decreases v@.len() - i,
    {
        assert(all.take(i + 1).drop_last() =~= all.take(i as int));
        assert(all.take(i + 1).last() == v@[i as int]@);
        if !knows_package(&out, &v[i]) {
            let d = v[i].duplicate();
            proof {
                deps_push(out@, d);
            }
            out.push(d);
        }
        i += 1;
    }
    assert(all.take(all.len() as int) =~= all);
    out
}

/// No package is in the list twice, and none is lost.
pub proof fn unique_keeps_one_of_each(v: Seq<DepView>)
    ensures
        forall|i: int, j: int|
            0 <= i < j < unique(v).len() ==> !same_package(
                #[trigger] unique(v)[i],
                #[trigger] unique(v)[j],
            ),
        forall|i: int| 0 <= i < v.len() ==> has_package(unique(v), #[trigger] v[i]),
    decreases v.len(),
{
    if v.len() > 0 {
        let before = unique(v.drop_last());
        unique_keeps_one_of_each(v.drop_last());
        assert forall|i: int| 0 <= i < v.len() implies has_package(unique(v), #[trigger] v[i]) by {
            if i < v.len() - 1 {
                assert(v.drop_last()[i] == v[i]);
                let k = choose|k: int| 0 <= k < before.len() && same_package(#[trigger] before[k], v[i]);
                assert(unique(v)[k] == before[k]);
            } else if has_package(before, v.last()) {
            } else {
                assert(unique(v)[before.len() as int] == v.last());
            }
        }
    }
}

// ---- counts --------------------------------------------------------------------------------

/// The number of packages of an ecosystem among the first `n`.
pub open spec fn of_ecosystem(v: Seq<DepView>, ecosystem: Seq<char>, n: int) -> nat
    decreases n,
{
    if n <= 0 {
        0
    } else {
        of_ecosystem(v, ecosystem, n - 1) + (if v[n - 1].ecosystem == ecosystem {
            1nat
        } else {
            0
        })
    }
}

/// The ecosystems of the packages, each once, in order.
pub open spec fn ecosystems(v: Seq<DepView>) -> Seq<Seq<char>> {
    order::in_order(v.map_values(|d: DepView| d.ecosystem))
}

fn count_ecosystem(v: &Vec<Dep>, ecosystem: &str) -> (r: usize)
    ensures
        r == of_ecosystem(deps(v@), ecosystem@, v@.len() as int),
{
    let ghost all = deps(v@);
    let mut n: usize = 0;
    let mut i: usize = 0;
    while i < v.len()
        invariant
            i <= v@.len(),
            n <= i,
            all == deps(v@),
            n == of_ecosystem(all, ecosystem@, i as int),
        decreases v@.len() - i,
    {
        assert(all[i as int] == v@[i as int]@);
        if text::str_eq(&v[i].ecosystem, ecosystem) {
            n += 1;
        }
        i += 1;
    }
    n
}

/// The ecosystems in order, each with its number of packages.
pub fn ecosystem_counts(v: &Vec<Dep>) -> (r: Vec<(String, usize)>)
    ensures
        r@.len() == ecosystems(deps(v@)).len(),
        forall|i: int|
            0 <= i < r@.len() ==> (#[trigger] r@[i]).0@ == ecosystems(deps(v@))[i] && r@[i].1
                == of_ecosystem(deps(v@), r@[i].0@, v@.len() as int),
{
    let ghost all = deps(v@);
    let ghost want = all.map_values(|d: DepView| d.ecosystem);
    let mut names: Vec<String> = Vec::new();
    assert(want.take(0) =~= Seq::empty());
    let mut i: usize = 0;
    while i < v.len()
        invariant
            i <= v@.len(),
            all == deps(v@),
            want == all.map_values(|d: DepView| d.ecosystem),
            text::views(names@) == want.take(i as int),
        decreases v@.len() - i,
    {
        assert(all[i as int] == v@[i as int]@);
        names.push(v[i].ecosystem.clone());
        assert(want.take(i + 1) =~= want.take(i as int).push(want[i as int]));
        i += 1;
    }
    assert(want.take(want.len() as int) =~= want);
    let words = order::sorted_words(&names);
    let mut out: Vec<(String, usize)> = Vec::new();
    let mut k: usize = 0;
    while k < words.len()
        invariant
            k <= words@.len(),
            out@.len() == k,
            text::views(words@) == ecosystems(deps(v@)),
            forall|i: int|
                0 <= i < k ==> (#[trigger] out@[i]).0@ == ecosystems(deps(v@))[i] && out@[i].1
                    == of_ecosystem(deps(v@), out@[i].0@, v@.len() as int),
        decreases words@.len() - k,
    {
        assert(text::views(words@)[k as int] == words@[k as int]@);
        let n = count_ecosystem(v, &words[k]);
        out.push((words[k].clone(), n));
        k += 1;
    }
    out
}

} // verus!
