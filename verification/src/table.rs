//! A table from names to values, kept in the order of the names.

use vstd::prelude::*;
use crate::order;
use crate::text;

verus! {

broadcast use {vstd::seq::group_seq_axioms, vstd::map::group_map_axioms};

/// A table from names to values.
#[derive(Debug, Clone)]
pub struct Table<V> {
    pub entries: Vec<(String, V)>,
}

/// The names stand in ascending order, each of them once.
pub open spec fn in_names_order<V>(e: Seq<(String, V)>) -> bool {
    forall|i: int, j: int|
        0 <= i < j < e.len() ==> order::precedes((#[trigger] e[i]).0@, (#[trigger] e[j]).0@)
}

/// Entry `i` is the one of that name.
pub open spec fn is_at<V>(e: Seq<(String, V)>, name: Seq<char>, i: int) -> bool {
    0 <= i < e.len() && e[i].0@ == name
}

/// What the entries hold, by name.
pub open spec fn entries_map<V>(e: Seq<(String, V)>) -> Map<Seq<char>, V> {
    Map::new(
        |name: Seq<char>| exists|i: int| is_at(e, name, i),
        |name: Seq<char>| e[choose|i: int| is_at(e, name, i)].1,
    )
}

impl<V> View for Table<V> {
    type V = Map<Seq<char>, V>;

    open spec fn view(&self) -> Map<Seq<char>, V> {
        entries_map(self.entries@)
    }
}

/// An entry is what the table holds of its name.
pub proof fn entry_is_held<V>(e: Seq<(String, V)>, i: int)
    requires
        in_names_order(e),
        0 <= i < e.len(),
    ensures
        entries_map(e).dom().contains(e[i].0@),
        entries_map(e)[e[i].0@] == e[i].1,
{
    let name = e[i].0@;
    assert(is_at(e, name, i));
    let k = choose|k: int| is_at(e, name, k);
    assert(is_at(e, name, k));
    order::order_is_total(name, name);
    if k < i {
        assert(order::precedes(e[k].0@, e[i].0@));
    } else if i < k {
        assert(order::precedes(e[i].0@, e[k].0@));
    }
}

proof fn replacing<V>(e: Seq<(String, V)>, i: int, f: Seq<(String, V)>, v: V)
    requires
        in_names_order(e),
        0 <= i < e.len(),
        f.len() == e.len(),
        forall|j: int| 0 <= j < e.len() && j != i ==> #[trigger] f[j] == e[j],
        f[i] == (e[i].0, v),
    ensures
        in_names_order(f),
        entries_map(f) == entries_map(e).insert(e[i].0@, v),
{
    assert forall|a: int, b: int| 0 <= a < b < f.len() implies order::precedes(
        (#[trigger] f[a]).0@,
        (#[trigger] f[b]).0@,
    ) by {
        assert(f[a].0 == e[a].0);
        assert(f[b].0 == e[b].0);
    }
    let want = entries_map(e).insert(e[i].0@, v);
    assert forall|name: Seq<char>|
        entries_map(f).dom().contains(name) <==> want.dom().contains(name) by {
        if entries_map(f).dom().contains(name) {
            let k = choose|k: int| is_at(f, name, k);
            assert(f[k].0 == e[k].0);
            assert(is_at(e, name, k));
        }
        if want.dom().contains(name) {
            if name == e[i].0@ {
                assert(is_at(f, name, i));
            } else {
                let k = choose|k: int| is_at(e, name, k);
                assert(f[k].0 == e[k].0);
                assert(is_at(f, name, k));
            }
        }
    }
    assert forall|name: Seq<char>| want.dom().contains(name) implies #[trigger] entries_map(
        f,
    )[name] == want[name] by {
        if name == e[i].0@ {
            entry_is_held(f, i);
        } else {
            let k = choose|k: int| is_at(e, name, k);
            assert(is_at(e, name, k));
            assert(f[k].0 == e[k].0);
            entry_is_held(e, k);
            entry_is_held(f, k);
        }
    }
    assert(entries_map(f) =~= want);
}

proof fn adding<V>(e: Seq<(String, V)>, i: int, name: String, v: V)
    requires
        in_names_order(e),
        0 <= i <= e.len(),
        forall|j: int| 0 <= j < i ==> order::precedes((#[trigger] e[j]).0@, name@),
        i < e.len() ==> order::precedes(name@, e[i].0@),
    ensures
        in_names_order(e.insert(i, (name, v))),
        entries_map(e.insert(i, (name, v))) == entries_map(e).insert(name@, v),
{
    let f = e.insert(i, (name, v));
    assert forall|j: int| i <= j < e.len() implies order::precedes(
        name@,
        (#[trigger] e[j]).0@,
    ) by {
        if i < j {
            assert(order::precedes(e[i].0@, e[j].0@));
            order::order_is_transitive(name@, e[i].0@, e[j].0@);
        }
    }
    assert forall|a: int, b: int| 0 <= a < b < f.len() implies order::precedes(
        (#[trigger] f[a]).0@,
        (#[trigger] f[b]).0@,
    ) by {
        if a < i && i < b {
            assert(f[b] == e[b - 1]);
            assert(order::precedes(e[a].0@, e[b - 1].0@));
        } else if a > i {
            assert(f[a] == e[a - 1]);
            assert(f[b] == e[b - 1]);
        } else if a == i {
            assert(f[b] == e[b - 1]);
        } else if b < i {
            assert(f[a] == e[a] && f[b] == e[b]);
        }
    }
    let want = entries_map(e).insert(name@, v);
    assert forall|n: Seq<char>|
        entries_map(f).dom().contains(n) <==> want.dom().contains(n) by {
        if entries_map(f).dom().contains(n) && n != name@ {
            let k = choose|k: int| is_at(f, n, k);
            if k < i {
                assert(is_at(e, n, k));
            } else {
                assert(f[k] == e[k - 1]);
                assert(is_at(e, n, k - 1));
            }
        }
        if want.dom().contains(n) {
            if n == name@ {
                assert(is_at(f, n, i));
            } else {
                let k = choose|k: int| is_at(e, n, k);
                if k < i {
                    assert(is_at(f, n, k));
                } else {
                    assert(f[k + 1] == e[k]);
                    assert(is_at(f, n, k + 1));
                }
            }
        }
    }
    assert forall|n: Seq<char>| want.dom().contains(n) implies #[trigger] entries_map(f)[n]
        == want[n] by {
        if n == name@ {
            entry_is_held(f, i);
        } else {
            let k = choose|k: int| is_at(e, n, k);
            assert(is_at(e, n, k));
            entry_is_held(e, k);
            if k < i {
                entry_is_held(f, k);
            } else {
                assert(f[k + 1] == e[k]);
                entry_is_held(f, k + 1);
            }
        }
    }
    assert(entries_map(f) =~= want);
}

proof fn missing<V>(e: Seq<(String, V)>, i: int, name: Seq<char>)
    requires
        in_names_order(e),
        0 <= i <= e.len(),
        forall|j: int| 0 <= j < i ==> order::precedes((#[trigger] e[j]).0@, name),
        i < e.len() ==> order::precedes(name, e[i].0@),
    ensures
        !entries_map(e).dom().contains(name),
{
    if entries_map(e).dom().contains(name) {
        let k = choose|k: int| is_at(e, name, k);
        order::order_is_total(name, name);
        if k < i {
            assert(order::precedes(e[k].0@, name));
        } else if k > i {
            assert(order::precedes(e[i].0@, e[k].0@));
            order::order_is_transitive(name, e[i].0@, e[k].0@);
        }
    }
}

impl<V> Table<V> {
    /// A table without entries.
    pub fn new() -> (r: Table<V>)
        ensures
            in_names_order(r.entries@),
            r@ == Map::<Seq<char>, V>::empty(),
    {
        let r = Table { entries: Vec::new() };
        assert(r@ =~= Map::<Seq<char>, V>::empty());
        r
    }

    /// The place of a name: where it stands, or where it would.
    fn place(&self, name: &str) -> (r: (usize, bool))
        requires
            in_names_order(self.entries@),
        ensures
            r.0 <= self.entries@.len(),
            forall|j: int|
                0 <= j < r.0 ==> order::precedes((#[trigger] self.entries@[j]).0@, name@),
            r.1 ==> r.0 < self.entries@.len() && self.entries@[r.0 as int].0@ == name@,
            !r.1 && r.0 < self.entries@.len() ==> order::precedes(
                name@,
                self.entries@[r.0 as int].0@,
            ),
            r.1 == self@.dom().contains(name@),
            r.1 ==> self@[name@] == self.entries@[r.0 as int].1,
    {
        let n: usize = self.entries.len();
        let mut i: usize = 0;
        while i < n && order::str_precedes(&self.entries[i].0, name)
            invariant
                i <= n,
                n == self.entries@.len(),
                forall|j: int|
                    0 <= j < i ==> order::precedes((#[trigger] self.entries@[j]).0@, name@),
            decreases n - i,
        {
            i += 1;
        }
        let found = i < n && text::str_eq(&self.entries[i].0, name);
        proof {
            if found {
                entry_is_held(self.entries@, i as int);
            } else {
                if i < n {
                    order::order_is_total(name@, self.entries@[i as int].0@);
                }
                missing(self.entries@, i as int, name@);
            }
        }
        (i, found)
    }

    /// The value of a name.
    pub fn get(&self, name: &str) -> (r: Option<&V>)
        requires
            in_names_order(self.entries@),
        ensures
            match r {
                Some(v) => self@.dom().contains(name@) && *v == self@[name@],
                None => !self@.dom().contains(name@),
            },
    {
        let (i, found) = self.place(name);
        if found {
            Some(&self.entries[i].1)
        } else {
            None
        }
    }

    /// Gives a name a value, in place of the one that it had.
    pub fn insert(&mut self, name: &str, v: V)
        requires
            in_names_order(old(self).entries@),
        ensures
            in_names_order(final(self).entries@),
            final(self)@ == old(self)@.insert(name@, v),
    {
        let (i, found) = self.place(name);
        let ghost before = self.entries@;
        let key = name.to_owned();
        if found {
            let _ = self.entries.remove(i);
            proof {
                let rest = before.remove(i as int);
                assert forall|j: int| 0 <= j < i implies order::precedes(
                    (#[trigger] rest[j]).0@,
                    name@,
                ) by {
                    assert(rest[j] == before[j]);
                }
                removing(before, i as int);
                adding(rest, i as int, key, v);
                assert(entries_map(rest).insert(name@, v) =~= entries_map(before).insert(name@, v));
            }
        } else {
            proof {
                adding(before, i as int, key, v);
            }
        }
        self.entries.insert(i, (key, v));
    }

    /// The value of a name, to be changed. A name without one gets the given
    /// value first.
    pub fn get_mut_or(&mut self, name: &str, v: V) -> (r: &mut V)
        requires
            in_names_order(old(self).entries@),
        ensures
            *r == if old(self)@.dom().contains(name@) {
                old(self)@[name@]
            } else {
                v
            },
            in_names_order(final(self).entries@),
            final(self)@ == old(self)@.insert(name@, *final(r)),
    {
        let (i, found) = self.place(name);
        let ghost start = self.entries@;
        if !found {
            let key = name.to_owned();
            proof {
                adding(start, i as int, key, v);
                entry_is_held(start.insert(i as int, (key, v)), i as int);
            }
            self.entries.insert(i, (key, v));
        }
        let ghost before = self.entries@;
        assert(before[i as int].0@ == name@);
        proof {
            assert forall|y: (String, V)| y.0 == before[i as int].0 implies ({
                let f = #[trigger] before.update(i as int, y);
                in_names_order(f) && entries_map(f) == entries_map(start).insert(name@, y.1)
            }) by {
                let f = before.update(i as int, y);
                replacing(before, i as int, f, y.1);
                assert(entries_map(before).insert(name@, y.1) =~= entries_map(start).insert(
                    name@,
                    y.1,
                ));
            }
        }
        &mut self.entries[i].1
    }
}

proof fn removing<V>(e: Seq<(String, V)>, i: int)
    requires
        in_names_order(e),
        0 <= i < e.len(),
    ensures
        in_names_order(e.remove(i)),
        i < e.len() - 1 ==> order::precedes(e[i].0@, e.remove(i)[i].0@),
        forall|v: V|
            #[trigger] entries_map(e.remove(i)).insert(e[i].0@, v) == entries_map(e).insert(
                e[i].0@,
                v,
            ),
{
    let f = e.remove(i);
    assert forall|a: int, b: int| 0 <= a < b < f.len() implies order::precedes(
        (#[trigger] f[a]).0@,
        (#[trigger] f[b]).0@,
    ) by {
        let c = if a < i {
            a
        } else {
            a + 1
        };
        let d = if b < i {
            b
        } else {
            b + 1
        };
        assert(f[a] == e[c] && f[b] == e[d]);
    }
    if i < e.len() - 1 {
        assert(f[i] == e[i + 1]);
        assert(order::precedes(e[i].0@, e[i + 1].0@));
    }
    assert forall|v: V|
        #[trigger] entries_map(f).insert(e[i].0@, v) == entries_map(e).insert(e[i].0@, v) by {
        let x = entries_map(f).insert(e[i].0@, v);
        let y = entries_map(e).insert(e[i].0@, v);
        assert forall|n: Seq<char>| x.dom().contains(n) <==> y.dom().contains(n) by {
            if n != e[i].0@ {
                if entries_map(f).dom().contains(n) {
                    let k = choose|k: int| is_at(f, n, k);
                    let m = if k < i {
                        k
                    } else {
                        k + 1
                    };
                    assert(f[k] == e[m]);
                    assert(is_at(e, n, m));
                }
                if entries_map(e).dom().contains(n) {
                    let m = choose|m: int| is_at(e, n, m);
                    let k = if m < i {
                        m
                    } else {
                        m - 1
                    };
                    assert(f[k] == e[m]);
                    assert(is_at(f, n, k));
                }
            }
        }
        assert forall|n: Seq<char>| x.dom().contains(n) implies #[trigger] x[n] == y[n] by {
            if n != e[i].0@ {
                let k = choose|k: int| is_at(f, n, k);
                let m = if k < i {
                    k
                } else {
                    k + 1
                };
                assert(f[k] == e[m]);
                entry_is_held(f, k);
                entry_is_held(e, m);
            }
        }
        assert(x =~= y);
    }
}

} // verus!
