//! Packages: what the files that list them say.

use vstd::prelude::*;
use crate::deps;
use crate::graph;
use crate::json;
use crate::json::JsonView;
use crate::laws::texts;
use crate::laws::texts::{is_plain, is_plain_char, lacks};
use crate::manifests;
use crate::packages;
use crate::packages::DepView;
use crate::pieces;
use crate::text;

verus! {

broadcast use vstd::seq::group_seq_axioms;

/// A package that is listed under a name and a version, with no chain to it.
pub open spec fn entry(
    name: Seq<char>,
    version: Seq<char>,
    ecosystem: Seq<char>,
    is_direct: bool,
    manifest: Seq<char>,
) -> DepView {
    DepView { name, version, ecosystem, is_direct, via: Seq::empty(), manifest }
}

/// A text that begins and ends with something that is not white.
pub open spec fn is_trimmed(s: Seq<char>) -> bool {
    s.len() > 0 && !text::is_white(s[0]) && !text::is_white(s.last())
}

// ---- Alpine and Debian ----------------------------------------------------------------

/// A stanza of Alpine's list with one line for the name and one for the version,
/// among others and in any order, gives one package of that name and version.
pub proof fn apk_stanzas_give_their_package(
    content: Seq<char>,
    lines: Seq<Seq<char>>,
    i: int,
    j: int,
    n: Seq<char>,
    v: Seq<char>,
)
    requires
        pieces::lines(content) == lines,
        0 <= i < lines.len(),
        0 <= j < lines.len(),
        lines[i] == seq!['P', ':'] + n,
        lines[j] == seq!['V', ':'] + v,
        is_trimmed(n),
        is_trimmed(v),
        forall|k: int| 0 <= k < lines.len() ==> (#[trigger] lines[k]).len() > 0,
        forall|k: int|
            0 <= k < lines.len() && k != i ==> !text::starts_with(#[trigger] lines[k], "P:"@),
        forall|k: int|
            0 <= k < lines.len() && k != j ==> !text::starts_with(#[trigger] lines[k], "V:"@),
    ensures
        deps::closed(
            manifests::apk_read(pieces::lines(content)),
            "Alpine"@,
            "apk/db/installed"@,
            true,
        ) == seq![entry(n, v, "Alpine"@, true, "apk/db/installed"@)],
{
    apk_fields(lines, i, j, n, v);
    let s = manifests::apk_read(lines);
    assert(s.found.push(entry(n, v, "Alpine"@, true, "apk/db/installed"@)) =~= seq![
        entry(n, v, "Alpine"@, true, "apk/db/installed"@),
    ]);
}

proof fn marks_of_apk(n: Seq<char>, v: Seq<char>)
    ensures
        "P:"@ == seq!['P', ':'],
        "V:"@ == seq!['V', ':'],
        text::strip_prefix("P:"@ + n, "P:"@) == Some(n),
        text::strip_prefix("V:"@ + v, "V:"@) == Some(v),
        text::strip_prefix("V:"@ + v, "P:"@) is None,
        !text::starts_with("P:"@ + n, "V:"@),
{
    reveal_strlit("P:");
    reveal_strlit("V:");
    assert("P:"@ =~= seq!['P', ':']);
    assert("V:"@ =~= seq!['V', ':']);
    texts::stripping_undoes_prefixing("P:"@, n, "V:"@ + v);
    texts::stripping_undoes_prefixing("V:"@, v, "P:"@ + n);
    assert(("V:"@ + v).take(2)[0] == 'V');
    assert(("P:"@ + n).subrange(0, 2)[0] == 'P');
}

proof fn apk_fields(lines: Seq<Seq<char>>, i: int, j: int, n: Seq<char>, v: Seq<char>)
    requires
        0 <= i < lines.len() ==> lines[i] == seq!['P', ':'] + n,
        0 <= j < lines.len() ==> lines[j] == seq!['V', ':'] + v,
        is_trimmed(n),
        is_trimmed(v),
        forall|k: int| 0 <= k < lines.len() ==> (#[trigger] lines[k]).len() > 0,
        forall|k: int|
            0 <= k < lines.len() && k != i ==> !text::starts_with(#[trigger] lines[k], "P:"@),
        forall|k: int|
            0 <= k < lines.len() && k != j ==> !text::starts_with(#[trigger] lines[k], "V:"@),
    ensures
        ({
            let s = manifests::apk_read(lines);
            &&& 0 <= i < lines.len() ==> s.name == n
            &&& !(0 <= i < lines.len()) ==> s.name.len() == 0
            &&& 0 <= j < lines.len() ==> s.version == v
            &&& !(0 <= j < lines.len()) ==> s.version.len() == 0
            &&& s.found.len() == 0
        }),
    decreases lines.len(),
{
    if lines.len() > 0 {
        let w = lines.drop_last();
        assert forall|k: int| 0 <= k < w.len() implies (#[trigger] w[k]) == lines[k] by {}
        apk_fields(w, i, j, n, v);
        marks_of_apk(n, v);
        texts::trimmed_texts_stay(n);
        texts::trimmed_texts_stay(v);
        let l = lines[lines.len() - 1];
        assert(lines.last() == l);
    }
}

/// Stanzas are parted by empty lines, and each gives what it gives alone.
pub proof fn apk_stanzas_are_read_apart(a: Seq<Seq<char>>, b: Seq<Seq<char>>)
    ensures
        deps::closed(
            manifests::apk_read(a + seq![Seq::empty()] + b),
            "Alpine"@,
            "apk/db/installed"@,
            true,
        ) == deps::closed(manifests::apk_read(a), "Alpine"@, "apk/db/installed"@, true)
            + deps::closed(manifests::apk_read(b), "Alpine"@, "apk/db/installed"@, true),
{
    apk_apart(a, b);
    let x = manifests::apk_read(a + seq![Seq::empty()] + b);
    let y = manifests::apk_read(b);
    let e = entry(y.name, y.version, "Alpine"@, true, "apk/db/installed"@);
    let before = deps::closed(manifests::apk_read(a), "Alpine"@, "apk/db/installed"@, true);
    assert((before + y.found).push(e) =~= before + y.found.push(e));
}

proof fn apk_apart(a: Seq<Seq<char>>, b: Seq<Seq<char>>)
    ensures
        ({
            let x = manifests::apk_read(a + seq![Seq::empty()] + b);
            let y = manifests::apk_read(b);
            &&& x.name == y.name
            &&& x.version == y.version
            &&& x.found == deps::closed(
                manifests::apk_read(a),
                "Alpine"@,
                "apk/db/installed"@,
                true,
            ) + y.found
        }),
    decreases b.len(),
{
    let all = a + seq![Seq::<char>::empty()] + b;
    let before = deps::closed(manifests::apk_read(a), "Alpine"@, "apk/db/installed"@, true);
    if b.len() == 0 {
        assert(all.drop_last() =~= a);
        assert(all.last().len() == 0);
        assert(before + Seq::<DepView>::empty() =~= before);
    } else {
        apk_apart(a, b.drop_last());
        assert(all.drop_last() =~= a + seq![Seq::<char>::empty()] + b.drop_last());
        assert(all.last() == b.last());
        let y = manifests::apk_read(b.drop_last());
        let e = entry(y.name, y.version, "Alpine"@, true, "apk/db/installed"@);
        assert((before + y.found).push(e) =~= before + y.found.push(e));
    }
}

/// A stanza of Debian's list with one line for the name, one for the version and
/// one for the state gives one package where the state says that it is installed,
/// and none where it does not.
pub proof fn dpkg_stanzas_give_their_package(
    lines: Seq<Seq<char>>,
    eco: Seq<char>,
    i: int,
    j: int,
    m: int,
    n: Seq<char>,
    v: Seq<char>,
    st: Seq<char>,
)
    requires
        0 <= i < lines.len(),
        0 <= j < lines.len(),
        0 <= m < lines.len(),
        lines[i] == "Package: "@ + n,
        lines[j] == "Version: "@ + v,
        lines[m] == "Status: "@ + st,
        is_trimmed(n),
        is_trimmed(v),
        is_trimmed(st),
        forall|k: int| 0 <= k < lines.len() ==> (#[trigger] lines[k]).len() > 0,
        forall|k: int|
            0 <= k < lines.len() && k != i ==> !text::starts_with(#[trigger] lines[k], "Package: "@),
        forall|k: int|
            0 <= k < lines.len() && k != j ==> !text::starts_with(#[trigger] lines[k], "Version: "@),
        forall|k: int|
            0 <= k < lines.len() && k != m ==> !text::starts_with(#[trigger] lines[k], "Status: "@),
    ensures
        text::contains(st, "installed"@) ==> manifests::dpkg_closed(
            manifests::dpkg_read(lines, eco),
            eco,
        ) == seq![entry(n, v, eco, true, "dpkg/status"@)],
        !text::contains(st, "installed"@) ==> manifests::dpkg_closed(
            manifests::dpkg_read(lines, eco),
            eco,
        ).len() == 0,
{
    dpkg_fields(lines, eco, i, j, m, n, v, st);
    let s = manifests::dpkg_read(lines, eco);
    assert(s.found.push(entry(n, v, eco, true, "dpkg/status"@)) =~= seq![
        entry(n, v, eco, true, "dpkg/status"@),
    ]);
}

proof fn dpkg_fields(
    lines: Seq<Seq<char>>,
    eco: Seq<char>,
    i: int,
    j: int,
    m: int,
    n: Seq<char>,
    v: Seq<char>,
    st: Seq<char>,
)
    requires
        0 <= i < lines.len() ==> lines[i] == "Package: "@ + n,
        0 <= j < lines.len() ==> lines[j] == "Version: "@ + v,
        0 <= m < lines.len() ==> lines[m] == "Status: "@ + st,
        is_trimmed(n),
        is_trimmed(v),
        is_trimmed(st),
        forall|k: int| 0 <= k < lines.len() ==> (#[trigger] lines[k]).len() > 0,
        forall|k: int|
            0 <= k < lines.len() && k != i ==> !text::starts_with(#[trigger] lines[k], "Package: "@),
        forall|k: int|
            0 <= k < lines.len() && k != j ==> !text::starts_with(#[trigger] lines[k], "Version: "@),
        forall|k: int|
            0 <= k < lines.len() && k != m ==> !text::starts_with(#[trigger] lines[k], "Status: "@),
    ensures
        ({
            let s = manifests::dpkg_read(lines, eco);
            &&& 0 <= i < lines.len() ==> s.name == n
            &&& !(0 <= i < lines.len()) ==> s.name.len() == 0
            &&& 0 <= j < lines.len() ==> s.version == v
            &&& !(0 <= j < lines.len()) ==> s.version.len() == 0
            &&& 0 <= m < lines.len() ==> s.status == st
            &&& !(0 <= m < lines.len()) ==> s.status.len() == 0
            &&& s.found.len() == 0
        }),
    decreases lines.len(),
{
    if lines.len() > 0 {
        let w = lines.drop_last();
        assert forall|k: int| 0 <= k < w.len() implies (#[trigger] w[k]) == lines[k] by {}
        dpkg_fields(w, eco, i, j, m, n, v, st);
        let l = lines[lines.len() - 1];
        assert(lines.last() == l);
        texts::stripping_undoes_prefixing("Package: "@, n, l);
        texts::stripping_undoes_prefixing("Version: "@, v, l);
        texts::stripping_undoes_prefixing("Status: "@, st, l);
        texts::trimmed_texts_stay(n);
        texts::trimmed_texts_stay(v);
        texts::trimmed_texts_stay(st);
        if i == lines.len() - 1 || j == lines.len() - 1 || m == lines.len() - 1 {
            reveal_strlit("Package: ");
            reveal_strlit("Version: ");
            reveal_strlit("Status: ");
            assert("Package: "@[0] == 'P');
            assert("Version: "@[0] == 'V');
            assert("Status: "@[0] == 'S');
            assert(l[0] == 'P' || l[0] == 'V' || l[0] == 'S');
        }
        one_prefix(l);
    }
}

proof fn one_prefix(l: Seq<char>)
    ensures
        text::starts_with(l, "Package: "@) ==> l[0] == 'P',
        text::starts_with(l, "Version: "@) ==> l[0] == 'V',
        text::starts_with(l, "Status: "@) ==> l[0] == 'S',
{
    reveal_strlit("Package: ");
    reveal_strlit("Version: ");
    reveal_strlit("Status: ");
    assert("Package: "@[0] == 'P');
    assert("Version: "@[0] == 'V');
    assert("Status: "@[0] == 'S');
    if text::starts_with(l, "Package: "@) {
        assert(l.subrange(0, 9)[0] == l[0]);
    }
    if text::starts_with(l, "Version: "@) {
        assert(l.subrange(0, 9)[0] == l[0]);
    }
    if text::starts_with(l, "Status: "@) {
        assert(l.subrange(0, 8)[0] == l[0]);
    }
}

/// Stanzas are parted by empty lines, and each gives what it gives alone.
pub proof fn dpkg_stanzas_are_read_apart(a: Seq<Seq<char>>, b: Seq<Seq<char>>, eco: Seq<char>)
    ensures
        manifests::dpkg_closed(manifests::dpkg_read(a + seq![Seq::empty()] + b, eco), eco)
            == manifests::dpkg_closed(manifests::dpkg_read(a, eco), eco) + manifests::dpkg_closed(
            manifests::dpkg_read(b, eco),
            eco,
        ),
{
    dpkg_apart(a, b, eco);
    let y = manifests::dpkg_read(b, eco);
    let e = entry(y.name, y.version, eco, true, "dpkg/status"@);
    let before = manifests::dpkg_closed(manifests::dpkg_read(a, eco), eco);
    assert((before + y.found).push(e) =~= before + y.found.push(e));
}

proof fn dpkg_apart(a: Seq<Seq<char>>, b: Seq<Seq<char>>, eco: Seq<char>)
    ensures
        ({
            let x = manifests::dpkg_read(a + seq![Seq::empty()] + b, eco);
            let y = manifests::dpkg_read(b, eco);
            &&& x.name == y.name
            &&& x.version == y.version
            &&& x.status == y.status
            &&& x.found == manifests::dpkg_closed(manifests::dpkg_read(a, eco), eco) + y.found
        }),
    decreases b.len(),
{
    let all = a + seq![Seq::<char>::empty()] + b;
    let before = manifests::dpkg_closed(manifests::dpkg_read(a, eco), eco);
    if b.len() == 0 {
        assert(all.drop_last() =~= a);
        assert(all.last().len() == 0);
        assert(before + Seq::<DepView>::empty() =~= before);
    } else {
        dpkg_apart(a, b.drop_last(), eco);
        assert(all.drop_last() =~= a + seq![Seq::<char>::empty()] + b.drop_last());
        assert(all.last() == b.last());
        let y = manifests::dpkg_read(b.drop_last(), eco);
        let e = entry(y.name, y.version, eco, true, "dpkg/status"@);
        assert((before + y.found).push(e) =~= before + y.found.push(e));
    }
}

/// The name and the version of a system are those of its release file, without
/// their quotes; a system that does not name itself is called Linux.
pub proof fn releases_name_the_system(n: Seq<char>, v: Seq<char>, other: Seq<char>)
    requires
        is_plain(n),
        is_plain(v),
        !text::starts_with(other, "NAME="@),
        !text::starts_with(other, "VERSION_ID="@),
    ensures
        ({
            let q = seq!['"'];
            let lines = seq!["NAME="@ + (q + n + q), other, "VERSION_ID="@ + (q + v + q)];
            let r = manifests::release_read(lines);
            r.name == n && r.version == v
        }),
        ({
            let lines = seq!["VERSION_ID="@ + v, other, "NAME="@ + n];
            let r = manifests::release_read(lines);
            r.name == n && r.version == v
        }),
        manifests::release_of(Seq::empty()).name == "Linux"@,
{
    let q = seq!['"'];
    let l1 = "NAME="@ + (q + n + q);
    let l2 = "VERSION_ID="@ + (q + v + q);
    let k1 = "VERSION_ID="@ + v;
    let k2 = "NAME="@ + n;
    texts::stripping_undoes_prefixing("NAME="@, q + n + q, l2);
    texts::stripping_undoes_prefixing("VERSION_ID="@, q + v + q, l1);
    texts::stripping_undoes_prefixing("NAME="@, n, k1);
    texts::stripping_undoes_prefixing("VERSION_ID="@, v, k2);
    texts::stripping_undoes_prefixing("NAME="@, n, other);
    texts::stripping_undoes_prefixing("VERSION_ID="@, v, other);
    reveal_strlit("NAME=");
    reveal_strlit("VERSION_ID=");
    assert("NAME="@[0] == 'N');
    assert("VERSION_ID="@[0] == 'V');
    assert(l2.take(5)[0] == 'V');
    assert(k1.take(5)[0] == 'V');
    texts::trimmed_texts_stay(q + n + q);
    texts::trimmed_texts_stay(q + v + q);
    plain_is_trimmed(n);
    plain_is_trimmed(v);
    texts::trimmed_texts_stay(n);
    texts::trimmed_texts_stay(v);
    texts::quotes_come_off(n, '"');
    texts::quotes_come_off(v, '"');
    reveal_with_fuel(manifests::release_read, 5);
    let x = seq![l1, other, l2];
    assert(x.drop_last() =~= seq![l1, other]);
    assert(x.drop_last().drop_last() =~= seq![l1]);
    assert(x.drop_last().drop_last().drop_last() =~= Seq::<Seq<char>>::empty());
    let y = seq![k1, other, k2];
    assert(y.drop_last() =~= seq![k1, other]);
    assert(y.drop_last().drop_last() =~= seq![k1]);
    assert(y.drop_last().drop_last().drop_last() =~= Seq::<Seq<char>>::empty());
}

pub proof fn plain_is_trimmed(s: Seq<char>)
    requires
        is_plain(s),
    ensures
        is_trimmed(s),
        forall|i: int| 0 <= i < s.len() ==> !text::is_white(#[trigger] s[i]),
{
    assert(s.last() == s[s.len() - 1]);
}

/// The list that a system's packages are looked up in follows its name.
pub proof fn systems_have_their_list(name: Seq<char>)
    ensures
        ({
            let n = text::lowercase(name);
            let e = manifests::os_ecosystem(name);
            let ubuntu = text::contains(n, "ubuntu"@);
            let debian = text::contains(n, "debian"@);
            let alpine = text::contains(n, "alpine"@);
            let red = text::contains(n, "rhel"@) || text::contains(n, "red hat"@)
                || text::contains(n, "centos"@) || text::contains(n, "fedora"@);
            let rocky = text::contains(n, "rocky"@);
            let alma = text::contains(n, "alma"@);
            &&& ubuntu ==> e == "Ubuntu"@
            &&& debian && !ubuntu ==> e == "Debian"@
            &&& alpine && !ubuntu && !debian ==> e == "Alpine"@
            &&& red && !ubuntu && !debian && !alpine ==> e == "Red Hat"@
            &&& rocky && !ubuntu && !debian && !alpine && !red ==> e == "Rocky Linux"@
            &&& alma && !ubuntu && !debian && !alpine && !red && !rocky ==> e == "AlmaLinux"@
            &&& !ubuntu && !debian && !alpine && !red && !rocky && !alma ==> e == "Debian"@
        }),
{
}

// ---- Python -----------------------------------------------------------------------------

proof fn ops_are()
    ensures
        deps::OPS@.len() == 8,
        deps::OPS@[0]@ == seq!['=', '=', '='],
        deps::OPS@[1]@ == seq!['~', '='],
        deps::OPS@[2]@ == seq!['=', '='],
        deps::OPS@[3]@ == seq!['>', '='],
        deps::OPS@[4]@ == seq!['<', '='],
        deps::OPS@[5]@ == seq!['!', '='],
        deps::OPS@[6]@ == seq!['>'],
        deps::OPS@[7]@ == seq!['<'],
{
    reveal_strlit("===");
    reveal_strlit("~=");
    reveal_strlit("==");
    reveal_strlit(">=");
    reveal_strlit("<=");
    reveal_strlit("!=");
    reveal_strlit(">");
    reveal_strlit("<");
    assert("==="@ =~= seq!['=', '=', '=']);
    assert("~="@ =~= seq!['~', '=']);
    assert("=="@ =~= seq!['=', '=']);
    assert(">="@ =~= seq!['>', '=']);
    assert("<="@ =~= seq!['<', '=']);
    assert("!="@ =~= seq!['!', '=']);
    assert(">"@ =~= seq!['>']);
    assert("<"@ =~= seq!['<']);
}

proof fn ops_stand_apart(j: int, k: int, d: int)
    requires
        0 <= j < k < 8,
        0 <= d,
        d + deps::OPS@[j]@.len() <= deps::OPS@[k]@.len(),
    ensures
        exists|m: int|
            0 <= m < deps::OPS@[j]@.len() && #[trigger] deps::OPS@[j]@[m] != deps::OPS@[k]@[d + m],
{
    ops_are();
    let a = deps::OPS@[j]@;
    let b = deps::OPS@[k]@;
    assert(a[0] == a[0]);
    if a[0] == b[d] {
        assert(a.len() > 1);
        assert(a[1] != b[d + 1]);
    }
}

proof fn ops_are_signs(k: int, m: int)
    requires
        0 <= k < 8,
        0 <= m < deps::OPS@[k]@.len(),
    ensures
        !is_plain_char(deps::OPS@[k]@[m]),
{
    ops_are();
}

proof fn other_ops_are_not_there(n: Seq<char>, v: Seq<char>, j: int, k: int)
    requires
        is_plain(n),
        is_plain(v),
        0 <= j < k < 8,
    ensures
        text::find(n + deps::OPS@[k]@ + v, deps::OPS@[j]@) is None,
{
    ops_are();
    let a = deps::OPS@[j]@;
    let b = deps::OPS@[k]@;
    let s = n + b + v;
    text::find_from_is_first(s, a, 0);
    match text::find(s, a) {
        Some(i) => {
            assert forall|m: int| 0 <= m < a.len() implies s[i + m] == #[trigger] a[m] by {
                assert(s.subrange(i, i + a.len())[m] == s[i + m]);
            }
            ops_are_signs(j, 0);
            ops_are_signs(j, a.len() - 1);
            let last: int = i + a.len() - 1;
            assert(s[i] == a[0]);
            assert(s[last] == a[a.len() - 1]);
            if i < n.len() {
                assert(s[i] == n[i]);
                assert(false);
            }
            if last >= n.len() + b.len() {
                assert(s[last] == v[last - n.len() - b.len()]);
                assert(false);
            }
            let d = i - n.len();
            ops_stand_apart(j, k, d);
            let m = choose|m: int| 0 <= m < a.len() && #[trigger] a[m] != b[d + m];
            assert(s[i + m] == b[d + m]);
        },
        None => {},
    }
}

proof fn pinned_by(n: Seq<char>, v: Seq<char>, k: int, from: int)
    requires
        is_plain(n),
        is_plain(v),
        0 <= from <= k < 8,
    ensures
        deps::pinned_from(n + deps::OPS@[k]@ + v, from) == Some((n, v)),
    decreases k - from,
{
    let op = deps::OPS@[k]@;
    let s = n + op + v;
    if from < k {
        other_ops_are_not_there(n, v, from, k);
        pinned_by(n, v, k, from + 1);
    } else {
        ops_are();
        ops_are_signs(k, 0);
        texts::plain_lacks(n, op[0]);
        texts::parts_are_found_where_they_stand(n, op, v);
        assert(s.take(n.len() as int) =~= n);
        assert(s.skip(n.len() + op.len() as int) =~= v);
        plain_is_trimmed(n);
        plain_is_trimmed(v);
        texts::trimmed_texts_stay(n);
        texts::trimmed_texts_stay(v);
        texts::plain_lacks(v, ',');
        texts::pieces_stand_between_separators(v, ',', v);
    }
}

/// A requirement that ties a package to a version, by any of the operators, gives
/// the package and the version; a remark behind it changes nothing.
pub proof fn requirements_give_name_and_version(n: Seq<char>, k: int, v: Seq<char>, remark: Seq<char>)
    requires
        is_plain(n),
        is_plain(v),
        n[0] != '-',
        0 <= k < 8,
    ensures
        deps::requirement(n + deps::OPS@[k]@ + v) == Some((n, v)),
        deps::requirement(n + deps::OPS@[k]@ + v + seq![' '] + seq!['#'] + remark) == Some((n, v)),
        deps::OPS@[0]@ == "==="@ && deps::OPS@[1]@ == "~="@ && deps::OPS@[2]@ == "=="@
            && deps::OPS@[3]@ == ">="@ && deps::OPS@[4]@ == "<="@ && deps::OPS@[5]@ == "!="@
            && deps::OPS@[6]@ == ">"@ && deps::OPS@[7]@ == "<"@,
{
    ops_are();
    let op = deps::OPS@[k]@;
    let s = n + op + v;
    pinned_by(n, v, k, 0);
    plain_is_trimmed(n);
    plain_is_trimmed(v);
    assert(s[0] == n[0]);
    assert(s.last() == v.last());
    texts::trimmed_texts_stay(s);
    assert(lacks(s, '#')) by {
        texts::plain_lacks(n, '#');
        texts::plain_lacks(v, '#');
    }
    assert(lacks(s, '[')) by {
        texts::plain_lacks(n, '[');
        texts::plain_lacks(v, '[');
    }
    texts::pieces_stand_between_separators(s, '#', remark);
    texts::pieces_stand_between_separators(s, '[', remark);
    let t = s + seq![' '];
    assert(lacks(t, '#'));
    texts::pieces_stand_between_separators(t, '#', remark);
    let e = Seq::<char>::empty();
    texts::trimming_takes_white_ends(e, s, seq![' ']);
    assert(e + s + seq![' '] =~= t);
}

/// Options, remarks and empty lines are no requirements.
pub proof fn other_lines_are_no_requirements(rest: Seq<char>)
    ensures
        deps::requirement(seq!['-'] + rest) is None,
        deps::requirement(seq!['#'] + rest) is None,
        deps::requirement(Seq::empty()) is None,
{
    let e = Seq::<char>::empty();
    texts::pieces_stand_between_separators(e, '#', rest);
    assert(e + seq!['#'] + rest =~= seq!['#'] + rest);
    pieces::blank_is_all_white(e);
    let s = seq!['-'] + rest;
    pieces::index_from_bounds(s, '#', 0);
    let f = pieces::first_piece(s, '#');
    assert(f.len() > 0 && f[0] == '-');
    assert(pieces::trim_start(f) == f);
    dash_stays(f);
}

proof fn dash_stays(f: Seq<char>)
    requires
        f.len() > 0,
        f[0] == '-',
    ensures
        pieces::trim_end(f).len() > 0,
        pieces::trim_end(f)[0] == '-',
    decreases f.len(),
{
    if text::is_white(f.last()) {
        assert(f.len() > 1);
        dash_stays(f.drop_last());
    }
}

/// Each requirement of a file is listed, in order: the lines of a file are read
/// one by one, and so are the files.
pub proof fn requirements_are_read_line_by_line(
    a: Seq<Seq<char>>,
    b: Seq<Seq<char>>,
    l: Seq<char>,
    file: Seq<char>,
    n: Seq<char>,
    v: Seq<char>,
)
    ensures
        deps::requirement_deps(a + b, file) == deps::requirement_deps(a, file)
            + deps::requirement_deps(b, file),
        deps::requirement(l) == Some((n, v)) ==> deps::requirement_deps(seq![l], file) == seq![
            entry(n, v, "PyPI"@, true, file),
        ],
        deps::requirement(l) is None ==> deps::requirement_deps(seq![l], file).len() == 0,
    decreases b.len(),
{
    reveal_with_fuel(deps::requirement_deps, 2);
    assert(seq![l].drop_last() =~= Seq::<Seq<char>>::empty());
    assert(Seq::<DepView>::empty().push(entry(n, v, "PyPI"@, true, file)) =~= seq![
        entry(n, v, "PyPI"@, true, file),
    ]);
    if b.len() == 0 {
        assert(a + b =~= a);
        assert(deps::requirement_deps(a, file) + Seq::<DepView>::empty() =~= deps::requirement_deps(
            a,
            file,
        ));
    } else {
        requirements_are_read_line_by_line(a, b.drop_last(), l, file, n, v);
        assert((a + b).drop_last() =~= a + b.drop_last());
        assert((a + b).last() == b.last());
        let x = deps::requirement_deps(a, file);
        let y = deps::requirement_deps(b.drop_last(), file);
        match deps::requirement(b.last()) {
            Some(p) => {
                let e = entry(p.0, p.1, "PyPI"@, true, file);
                assert((x + y).push(e) =~= x + y.push(e));
            },
            None => {},
        }
    }
}

/// A file of requirements is known by its name.
pub proof fn requirement_files_are_known_by_their_name(middle: Seq<char>, other: Seq<char>)
    ensures
        deps::is_requirements_name("requirements"@ + middle + ".txt"@),
        !text::ends_with(other, ".txt"@) ==> !deps::is_requirements_name(other),
        !text::starts_with(other, "requirements"@) ==> !deps::is_requirements_name(other),
{
    let e = Seq::<char>::empty();
    texts::wholes_hold_their_parts("requirements"@ + middle, ".txt"@, e);
    texts::wholes_hold_their_parts(e, "requirements"@, middle + ".txt"@);
    assert("requirements"@ + (middle + ".txt"@) =~= "requirements"@ + middle + ".txt"@);
}

// ---- stanzas of settings: Poetry and Cargo ------------------------------------------------

/// A setting: a key and its value in quotes.
pub open spec fn quoted(key: Seq<char>, value: Seq<char>) -> Seq<char> {
    key + seq![' ', '=', ' ', '"'] + value + seq!['"']
}

/// A setting gives its value to its key, and nothing to another key.
pub proof fn settings_give_their_value(key: Seq<char>, value: Seq<char>, other: Seq<char>)
    requires
        is_plain(key),
        is_plain(value),
        is_plain(other),
        other[0] != key[0],
    ensures
        deps::setting(quoted(key, value), key) == Some(value),
        deps::setting(quoted(key, value), other) is None,
{
    let line = quoted(key, value);
    let open = key + " = "@;
    reveal_strlit(" = ");
    assert(" = "@ =~= seq![' ', '=', ' ']);
    plain_is_trimmed(key);
    assert(line[0] == key[0]);
    assert(line.last() == '"');
    texts::trimmed_texts_stay(line);
    let rest = seq!['"'] + value + seq!['"'];
    assert(line =~= open + rest);
    assert(line.subrange(0, open.len() as int) =~= open);
    assert(!text::starts_with(rest, open)) by {
        if text::starts_with(rest, open) {
            assert(rest.subrange(0, open.len() as int)[0] == '"');
            assert(open[0] == key[0]);
        }
    }
    texts::prefixes_come_off(open, rest);
    texts::trimmed_texts_stay(rest);
    texts::plain_lacks(value, '"');
    assert(value.last() == value[value.len() - 1]);
    texts::quotes_come_off(value, '"');
    let o2 = other + " = "@;
    if text::starts_with(line, o2) {
        assert(line.subrange(0, o2.len() as int)[0] == line[0]);
        assert(o2[0] == other[0]);
    }
    if line == other {
        assert(line[0] == other[0]);
    }
}

proof fn words_of_stanzas()
    ensures
        "name"@ == seq!['n', 'a', 'm', 'e'],
        "version"@ == seq!['v', 'e', 'r', 's', 'i', 'o', 'n'],
        is_plain("name"@),
        is_plain("version"@),
        "[[package]]"@.len() == 11,
        "[[package]]"@[0] == '[',
{
    reveal_strlit("name");
    reveal_strlit("version");
    reveal_strlit("[[package]]");
    assert("name"@ =~= seq!['n', 'a', 'm', 'e']);
    assert("version"@ =~= seq!['v', 'e', 'r', 's', 'i', 'o', 'n']);
}

/// A stanza of Poetry's lock that sets a name and a version gives that package.
pub proof fn poetry_stanzas_give_their_package(n: Seq<char>, v: Seq<char>)
    requires
        is_plain(n),
        is_plain(v),
    ensures
        ({
            let lines = seq!["[[package]]"@, quoted("name"@, n), quoted("version"@, v)];
            deps::closed(deps::poetry_read(lines), "PyPI"@, "poetry.lock"@, false) == seq![
                entry(n, v, "PyPI"@, false, "poetry.lock"@),
            ]
        }),
{
    words_of_stanzas();
    let h = "[[package]]"@;
    let a = quoted("name"@, n);
    let b = quoted("version"@, v);
    settings_give_their_value("name"@, n, "version"@);
    settings_give_their_value("version"@, v, "name"@);
    assert(a[0] == 'n' && b[0] == 'v');
    reveal_with_fuel(deps::poetry_read, 5);
    let x = seq![h, a, b];
    assert(x.drop_last() =~= seq![h, a]);
    assert(x.drop_last().drop_last() =~= seq![h]);
    assert(x.drop_last().drop_last().drop_last() =~= Seq::<Seq<char>>::empty());
    let e = entry(n, v, "PyPI"@, false, "poetry.lock"@);
    assert(Seq::<DepView>::empty().push(e) =~= seq![e]);
}

/// The stanzas of Poetry's lock are read one after another, each as it is alone.
pub proof fn poetry_stanzas_are_read_apart(a: Seq<Seq<char>>, b: Seq<Seq<char>>)
    ensures
        ({
            let h = seq!["[[package]]"@];
            deps::closed(deps::poetry_read(a + h + b), "PyPI"@, "poetry.lock"@, false)
                == deps::closed(deps::poetry_read(a), "PyPI"@, "poetry.lock"@, false)
                + deps::closed(deps::poetry_read(h + b), "PyPI"@, "poetry.lock"@, false)
        }),
{
    poetry_apart(a, b);
    let h = seq!["[[package]]"@];
    let y = deps::poetry_read(h + b);
    let e = entry(y.name, y.version, "PyPI"@, false, "poetry.lock"@);
    let before = deps::closed(deps::poetry_read(a), "PyPI"@, "poetry.lock"@, false);
    assert((before + y.found).push(e) =~= before + y.found.push(e));
}

proof fn poetry_apart(a: Seq<Seq<char>>, b: Seq<Seq<char>>)
    ensures
        ({
            let h = seq!["[[package]]"@];
            let x = deps::poetry_read(a + h + b);
            let y = deps::poetry_read(h + b);
            &&& x.begun && y.begun
            &&& x.name == y.name
            &&& x.version == y.version
            &&& x.found == deps::closed(deps::poetry_read(a), "PyPI"@, "poetry.lock"@, false)
                + y.found
        }),
    decreases b.len(),
{
    let h = seq!["[[package]]"@];
    let all = a + h + b;
    let before = deps::closed(deps::poetry_read(a), "PyPI"@, "poetry.lock"@, false);
    if b.len() == 0 {
        assert(all.drop_last() =~= a);
        assert(all.last() == h[0]);
        assert(h + b =~= h);
        assert(h.drop_last() =~= Seq::<Seq<char>>::empty());
        reveal_with_fuel(deps::poetry_read, 2);
        assert(before + Seq::<DepView>::empty() =~= before);
    } else {
        poetry_apart(a, b.drop_last());
        assert(all.drop_last() =~= a + h + b.drop_last());
        assert((h + b).drop_last() =~= h + b.drop_last());
        assert(all.last() == b.last() && (h + b).last() == b.last());
        let y = deps::poetry_read(h + b.drop_last());
        let e = entry(y.name, y.version, "PyPI"@, false, "poetry.lock"@);
        assert((before + y.found).push(e) =~= before + y.found.push(e));
    }
}

/// A stanza of Cargo's lock that sets a name and a version gives that package,
/// which is direct where the manifest lists its name.
pub proof fn cargo_stanzas_give_their_package(n: Seq<char>, v: Seq<char>, direct: Seq<Seq<char>>)
    requires
        is_plain(n),
        is_plain(v),
    ensures
        ({
            let lines = seq!["[[package]]"@, quoted("name"@, n), quoted("version"@, v)];
            deps::cargo_closed(deps::cargo_read(lines, direct), direct).found == seq![
                entry(n, v, "crates.io"@, direct.contains(n), "Cargo.lock"@),
            ]
        }),
{
    words_of_stanzas();
    reveal_strlit("dependencies = [");
    assert("dependencies = ["@[0] == 'd');
    let h = "[[package]]"@;
    let a = quoted("name"@, n);
    let b = quoted("version"@, v);
    settings_give_their_value("name"@, n, "version"@);
    settings_give_their_value("version"@, v, "name"@);
    assert(a[0] == 'n' && b[0] == 'v');
    assert(a.last() == '"' && b.last() == '"');
    texts::trimmed_texts_stay(a);
    texts::trimmed_texts_stay(b);
    reveal_with_fuel(deps::cargo_read, 5);
    let x = seq![h, a, b];
    assert(x.drop_last() =~= seq![h, a]);
    assert(x.drop_last().drop_last() =~= seq![h]);
    assert(x.drop_last().drop_last().drop_last() =~= Seq::<Seq<char>>::empty());
    let e = entry(n, v, "crates.io"@, direct.contains(n), "Cargo.lock"@);
    assert(Seq::<DepView>::empty().push(e) =~= seq![e]);
}

/// The keys of a Cargo manifest are the names before the equals signs, without
/// quotes; headings are no keys.
pub proof fn cargo_keys_stand_before_the_equals_sign(
    a: Seq<Seq<char>>,
    n: Seq<char>,
    rest: Seq<char>,
)
    requires
        is_plain(n),
        rest.len() > 0 ==> !text::is_white(rest.last()),
    ensures
        deps::cargo_keys(a.push(n + seq![' '] + seq!['='] + rest)) == deps::cargo_keys(a).push(n),
        deps::cargo_keys(a.push(seq!['['] + rest)) == deps::cargo_keys(a),
{
    let l = n + seq![' '] + seq!['='] + rest;
    assert(a.push(l).drop_last() =~= a);
    plain_is_trimmed(n);
    assert(l[0] == n[0]);
    assert(rest.len() > 0 ==> l.last() == rest.last());
    assert(rest.len() == 0 ==> l.last() == '=');
    texts::trimmed_texts_stay(l);
    let before = n + seq![' '];
    texts::plain_lacks(n, '=');
    assert(lacks(before, '='));
    texts::pieces_stand_between_separators(before, '=', rest);
    let e = Seq::<char>::empty();
    texts::trimming_takes_white_ends(e, n, seq![' ']);
    assert(e + n + seq![' '] =~= before);
    texts::plain_lacks(n, '"');
    assert(n.last() == n[n.len() - 1]);
    texts::quotes_come_off(n, '"');
    reveal_strlit("[");
    assert("["@ =~= seq!['[']);
    if text::starts_with(l, "["@) {
        assert(l.subrange(0, 1)[0] == l[0]);
    }
    let g = seq!['['] + rest;
    assert(a.push(g).drop_last() =~= a);
    assert(g.last() == if rest.len() > 0 {
        rest.last()
    } else {
        '['
    });
    texts::trimmed_texts_stay(g);
    texts::wholes_hold_their_parts(e, "["@, rest);
}

// ---- chains keep what was found -------------------------------------------------------------

/// Telling through whom a package is needed leaves its name, its version and the
/// rest as they were found.
pub proof fn chains_keep_what_was_found(v: Seq<DepView>, needs: Seq<Seq<int>>, i: int)
    requires
        0 <= i < v.len(),
    ensures
        ({
            let r = graph::chained(v, needs);
            &&& r.len() == v.len()
            &&& r[i].name == v[i].name
            &&& r[i].version == v[i].version
            &&& r[i].ecosystem == v[i].ecosystem
            &&& r[i].is_direct == v[i].is_direct
            &&& r[i].manifest == v[i].manifest
            &&& v[i].is_direct ==> r[i].via == v[i].via
        }),
{
    spread_keeps(v, needs, v.len(), i);
}

proof fn spread_keeps(v: Seq<DepView>, needs: Seq<Seq<int>>, n: nat, i: int)
    requires
        0 <= i < v.len(),
    ensures
        ({
            let r = graph::spread_times(v, needs, n);
            &&& r.len() == v.len()
            &&& r[i].name == v[i].name
            &&& r[i].version == v[i].version
            &&& r[i].ecosystem == v[i].ecosystem
            &&& r[i].is_direct == v[i].is_direct
            &&& r[i].manifest == v[i].manifest
            &&& v[i].is_direct ==> r[i].via == v[i].via
        }),
    decreases n,
{
    if n > 0 {
        spread_keeps(v, needs, (n - 1) as nat, i);
    }
}

// ---- JSON locks ---------------------------------------------------------------------------------

/// Each package of npm's lock that has a version is listed under its path without
/// the leading folder, in order; it is direct where the root lists its name. The
/// root itself is not listed.
pub proof fn npm_packages_are_listed(
    e: Seq<(Seq<char>, JsonView)>,
    direct: Seq<(Seq<char>, JsonView)>,
    n: Seq<char>,
    o: JsonView,
    v: Seq<char>,
    key: Seq<char>,
)
    requires
        is_plain(n),
        json::field(o, "version"@) == Some(JsonView::Str(v)),
    ensures
        ({
            let r = deps::npm_entries(e.push(("node_modules/"@ + n, o)), direct);
            let is_direct = exists|i: int| 0 <= i < direct.len() && (#[trigger] direct[i]).0 == n;
            r == deps::npm_entries(e, direct).push(
                entry(n, v, "npm"@, is_direct, "package-lock.json"@),
            )
        }),
        deps::npm_entries(e.push((Seq::empty(), o)), direct) == deps::npm_entries(e, direct),
        deps::npm_entries(Seq::empty(), direct).len() == 0,
{
    let x = ("node_modules/"@ + n, o);
    assert(e.push(x).drop_last() =~= e);
    assert(e.push((Seq::<char>::empty(), o)).drop_last() =~= e);
    reveal_strlit("node_modules/");
    assert("node_modules/"@[12] == '/');
    assert(!text::starts_with(n, "node_modules/"@)) by {
        if text::starts_with(n, "node_modules/"@) {
            assert(n.subrange(0, 13)[12] == n[12]);
            assert(is_plain_char(n[12]));
        }
    }
    texts::prefixes_come_off("node_modules/"@, n);
}

/// Each package of Pipenv's lock that has a version is listed, without the signs
/// of equality before the version, the default ones before those for development.
pub proof fn pipenv_packages_are_listed(
    e: Seq<(Seq<char>, JsonView)>,
    n: Seq<char>,
    o: JsonView,
    v: Seq<char>,
    whole: JsonView,
    a: Seq<(Seq<char>, JsonView)>,
    b: Seq<(Seq<char>, JsonView)>,
)
    requires
        is_plain(v),
        json::field(o, "version"@) == Some(JsonView::Str(seq!['=', '='] + v)),
    ensures
        deps::pipfile_section(e.push((n, o))) == deps::pipfile_section(e).push(
            entry(n, v, "PyPI"@, true, "Pipfile.lock"@),
        ),
        json::field(whole, "default"@) == Some(JsonView::Obj(a)) && json::field(whole, "develop"@)
            == Some(JsonView::Obj(b)) ==> deps::pipfile_of(whole) == deps::pipfile_section(a)
            + deps::pipfile_section(b),
{
    assert(e.push((n, o)).drop_last() =~= e);
    reveal_strlit("==");
    assert("=="@ =~= seq!['=', '=']);
    assert(!text::starts_with(v, "=="@)) by {
        if text::starts_with(v, "=="@) {
            assert(v.subrange(0, 2)[0] == v[0]);
        }
    }
    texts::prefixes_come_off("=="@, v);
}

/// Each package of Composer's lock is listed with its version, without the `v`
/// before it; those for development come after the others.
pub proof fn composer_packages_are_listed(
    a: Seq<JsonView>,
    o: JsonView,
    n: Seq<char>,
    v: Seq<char>,
    whole: JsonView,
    p: Seq<JsonView>,
    q: Seq<JsonView>,
)
    requires
        n.len() > 0,
        v.len() > 0,
        v[0] != 'v',
        json::field(o, "name"@) == Some(JsonView::Str(n)),
        json::field(o, "version"@) == Some(JsonView::Str(v)) || json::field(o, "version"@) == Some(
            JsonView::Str(seq!['v'] + v),
        ),
    ensures
        deps::composer_section(a.push(o)) == deps::composer_section(a).push(
            entry(n, v, "Packagist"@, true, "composer.lock"@),
        ),
        json::field(whole, "packages"@) == Some(JsonView::Arr(p)) && json::field(
            whole,
            "packages-dev"@,
        ) == Some(JsonView::Arr(q)) ==> deps::composer_of(whole) == deps::composer_section(p)
            + deps::composer_section(q),
{
    assert(a.push(o).drop_last() =~= a);
    reveal_with_fuel(pieces::trim_start_char, 2);
    assert((seq!['v'] + v).skip(1) =~= v);
}

/// Each package of NuGet's lock is listed with the version that it was resolved
/// to, and is direct where the lock says so.
pub proof fn nuget_packages_are_listed(
    e: Seq<(Seq<char>, JsonView)>,
    n: Seq<char>,
    o: JsonView,
    v: Seq<char>,
    kind: Seq<char>,
)
    requires
        v.len() > 0,
        json::field(o, "resolved"@) == Some(JsonView::Str(v)),
        json::field(o, "type"@) == Some(JsonView::Str(kind)),
    ensures
        manifests::nuget_framework(e.push((n, o))) == manifests::nuget_framework(e).push(
            entry(n, v, "NuGet"@, kind == "Direct"@, "packages.lock.json"@),
        ),
        manifests::nuget_framework(Seq::empty()).len() == 0,
{
    assert(e.push((n, o)).drop_last() =~= e);
}

// ---- Node, Go, Ruby -------------------------------------------------------------------------------

/// A block of Yarn's lock gives the package that its first line names, at the
/// version of its line for it.
pub proof fn yarn_blocks_give_their_package(
    a: Seq<Seq<char>>,
    n: Seq<char>,
    range: Seq<char>,
    v: Seq<char>,
)
    requires
        is_plain(n),
        is_plain(range),
        is_plain(v),
    ensures
        ({
            let head = n + seq!['@'] + range + seq![':'];
            let line = "  version \""@ + v + "\""@;
            deps::yarn_read(a.push(head).push(line)).found == deps::yarn_read(a).found.push(
                entry(n, v, "npm"@, false, "yarn.lock"@),
            )
        }),
{
    let head = n + seq!['@'] + range + seq![':'];
    let line = "  version \""@ + v + "\""@;
    assert(a.push(head).push(line).drop_last() =~= a.push(head));
    assert(a.push(head).drop_last() =~= a);
    yarn_head(n, range);
    yarn_line(v);
    reveal_with_fuel(deps::yarn_read, 3);
}

proof fn yarn_head(n: Seq<char>, range: Seq<char>)
    requires
        is_plain(n),
        is_plain(range),
    ensures
        ({
            let head = n + seq!['@'] + range + seq![':'];
            &&& head.len() > 0
            &&& !text::starts_with(head, "#"@)
            &&& deps::is_yarn_head(head)
            &&& deps::yarn_name(head) == n
        }),
{
    let head = n + seq!['@'] + range + seq![':'];
    reveal_strlit(" ");
    reveal_strlit("#");
    reveal_strlit(":");
    assert(":"@ =~= seq![':'] && "#"@ =~= seq!['#'] && " "@ =~= seq![' ']);
    assert(head[0] == n[0]);
    if text::starts_with(head, "#"@) {
        assert(head.subrange(0, 1)[0] == head[0]);
    }
    if text::starts_with(head, " "@) {
        assert(head.subrange(0, 1)[0] == head[0]);
    }
    texts::wholes_hold_their_parts(n + seq!['@'] + range, ":"@, Seq::empty());
    let h = n + seq!['@'] + range;
    assert(head.drop_last() =~= h);
    assert(h.last() == range[range.len() - 1]);
    assert(pieces::trim_end_char(head, ':') == h) by {
        reveal_with_fuel(pieces::trim_end_char, 2);
    }
    texts::plain_lacks(n, '@');
    texts::pieces_stand_between_separators(n, '@', range);
    texts::plain_lacks(n, '"');
    assert(n.last() == n[n.len() - 1]);
    texts::quotes_come_off(n, '"');
}

proof fn yarn_line(v: Seq<char>)
    requires
        is_plain(v),
    ensures
        ({
            let line = "  version \""@ + v + "\""@;
            &&& line.len() > 0
            &&& !text::starts_with(line, "#"@)
            &&& !deps::is_yarn_head(line)
            &&& text::starts_with(pieces::trim(line), "version"@)
            &&& deps::yarn_version(line) == v
        }),
{
    let line = "  version \""@ + v + "\""@;
    reveal_strlit("  version \"");
    reveal_strlit("\"");
    reveal_strlit("version");
    reveal_strlit(" ");
    reveal_strlit("#");
    let q = seq!['"'];
    assert("\""@ =~= q);
    assert("#"@ =~= seq!['#'] && " "@ =~= seq![' ']);
    let word = "version"@;
    let rest = seq![' '] + (q + v + q);
    let t = word + rest;
    assert(line =~= seq![' ', ' '] + t);
    assert(line[0] == ' ');
    if text::starts_with(line, "#"@) {
        assert(line.subrange(0, 1)[0] == line[0]);
    }
    assert(line.subrange(0, 1) =~= " "@);
    assert(text::starts_with(line, " "@));
    let e = Seq::<char>::empty();
    assert(t[0] == 'v' && t.last() == '"');
    texts::trimming_takes_white_ends(seq![' ', ' '], t, e);
    assert(seq![' ', ' '] + t + e =~= line);
    texts::wholes_hold_their_parts(e, word, rest);
    assert(!text::starts_with(rest, word)) by {
        if text::starts_with(rest, word) {
            assert(rest.subrange(0, 7)[0] == rest[0]);
        }
    }
    texts::prefixes_come_off(word, rest);
    texts::trimming_takes_white_ends(seq![' '], q + v + q, e);
    assert(seq![' '] + (q + v + q) + e =~= rest);
    texts::plain_lacks(v, '"');
    assert(v.last() == v[v.len() - 1]);
    texts::quotes_come_off(v, '"');
}

proof fn two_words(n: Seq<char>, w: Seq<char>)
    requires
        is_plain(n),
        is_plain(w),
    ensures
        pieces::words(n + seq![' '] + w) == seq![n, w],
{
    plain_is_trimmed(n);
    plain_is_trimmed(w);
    texts::words_stand_between_blanks(n, ' ', w);
    texts::words_stand_between_blanks(w, ' ', n);
    assert(seq![n] + seq![w] =~= seq![n, w]);
}

/// A module that a Go file requires, in a block or in a line of its own, is listed
/// at its version, without the `v` before it.
pub proof fn go_modules_are_listed(a: Seq<Seq<char>>, n: Seq<char>, v: Seq<char>)
    requires
        is_plain(n),
        is_plain(v),
        v[0] != 'v',
    ensures
        deps::gomod_read(a).open ==> deps::gomod_read(
            a.push(seq!['\t'] + (n + seq![' '] + (seq!['v'] + v))),
        ).found == deps::gomod_read(a).found.push(entry(n, v, "Go"@, true, "go.mod"@)),
        !deps::gomod_read(a).open ==> deps::gomod_read(
            a.push("require "@ + (n + seq![' '] + (seq!['v'] + v))),
        ).found == deps::gomod_read(a).found.push(entry(n, v, "Go"@, true, "go.mod"@)),
        deps::gomod_read(a.push("require ("@)).open,
        !deps::gomod_read(a.push(")"@)).open,
        deps::gomod_read(a.push("require ("@)).found == deps::gomod_read(a).found,
        deps::gomod_read(a.push(")"@)).found == deps::gomod_read(a).found,
        !deps::gomod_read(Seq::empty()).open,
{
    let w = seq!['v'] + v;
    let t = n + seq![' '] + w;
    assert(a.push(seq!['\t'] + t).drop_last() =~= a);
    assert(a.push("require "@ + t).drop_last() =~= a);
    assert(a.push("require ("@).drop_last() =~= a);
    assert(a.push(")"@).drop_last() =~= a);
    go_marks();
    go_line(n, v);
    go_own_line(n, v);
    go_words(n, v, deps::gomod_read(a).found);
}

proof fn go_marks()
    ensures
        "require ("@ == seq!['r', 'e', 'q', 'u', 'i', 'r', 'e', ' ', '('],
        "require "@ == seq!['r', 'e', 'q', 'u', 'i', 'r', 'e', ' '],
        ")"@ == seq![')'],
        pieces::trim("require ("@) == "require ("@,
        pieces::trim(")"@) == ")"@,
        "require ("@ != ")"@,
{
    reveal_strlit("require (");
    reveal_strlit("require ");
    reveal_strlit(")");
    assert("require ("@ =~= seq!['r', 'e', 'q', 'u', 'i', 'r', 'e', ' ', '(']);
    assert("require "@ =~= seq!['r', 'e', 'q', 'u', 'i', 'r', 'e', ' ']);
    assert(")"@ =~= seq![')']);
    texts::trimmed_texts_stay("require ("@);
    texts::trimmed_texts_stay(")"@);
}

proof fn go_words(n: Seq<char>, v: Seq<char>, found: Seq<DepView>)
    requires
        is_plain(n),
        is_plain(v),
        v[0] != 'v',
    ensures
        deps::go_required(found, seq![n, seq!['v'] + v]) == found.push(
            entry(n, v, "Go"@, true, "go.mod"@),
        ),
{
    let w = seq!['v'] + v;
    reveal_strlit("//");
    assert("//"@[0] == '/');
    if text::starts_with(n, "//"@) {
        assert(n.subrange(0, 2)[0] == n[0]);
    }
    reveal_with_fuel(pieces::trim_start_char, 2);
    assert(w.skip(1) =~= v);
}

proof fn go_line(n: Seq<char>, v: Seq<char>)
    requires
        is_plain(n),
        is_plain(v),
    ensures
        ({
            let t = n + seq![' '] + (seq!['v'] + v);
            let l = seq!['\t'] + t;
            &&& pieces::trim(l) == t
            &&& t != "require ("@
            &&& t != ")"@
            &&& pieces::words(t) == seq![n, seq!['v'] + v]
        }),
{
    go_marks();
    let w = seq!['v'] + v;
    assert(is_plain(w));
    let t = n + seq![' '] + w;
    let l = seq!['\t'] + t;
    let e = Seq::<char>::empty();
    plain_is_trimmed(n);
    plain_is_trimmed(w);
    assert(t[0] == n[0] && t.last() == w.last());
    texts::trimming_takes_white_ends(seq!['\t'], t, e);
    assert(seq!['\t'] + t + e =~= l);
    two_words(n, w);
    assert(t.last() == w[w.len() - 1]);
    assert("require ("@.last() == '(');
    assert(")"@.last() == ')');
}

proof fn go_own_line(n: Seq<char>, v: Seq<char>)
    requires
        is_plain(n),
        is_plain(v),
    ensures
        ({
            let l = "require "@ + (n + seq![' '] + (seq!['v'] + v));
            &&& pieces::trim(l) == l
            &&& l != "require ("@
            &&& l != ")"@
            &&& text::starts_with(l, "require "@)
            &&& pieces::words(l).len() > 0
            &&& pieces::words(l).skip(1) == seq![n, seq!['v'] + v]
        }),
{
    let w = seq!['v'] + v;
    let t = n + seq![' '] + w;
    let l = "require "@ + t;
    assert(is_plain(w));
    assert(pieces::trim(l) == l && l != "require ("@ && l != ")"@) by {
        go_marks();
        plain_is_trimmed(w);
        assert(l[0] == 'r' && l.last() == w.last());
        texts::trimmed_texts_stay(l);
        assert(l.len() > 9);
    }
    assert(text::starts_with(l, "require "@)) by {
        assert(l.subrange(0, "require "@.len() as int) =~= "require "@);
    }
    go_own_words(n, w);
}

proof fn go_own_words(n: Seq<char>, w: Seq<char>)
    requires
        is_plain(n),
        is_plain(w),
    ensures
        ({
            let l = "require "@ + (n + seq![' '] + w);
            &&& pieces::words(l).len() > 0
            &&& pieces::words(l).skip(1) == seq![n, w]
        }),
{
    let t = n + seq![' '] + w;
    let l = "require "@ + t;
    let head = seq!['r', 'e', 'q', 'u', 'i', 'r', 'e'];
    assert(head + seq![' '] + t == l) by {
        reveal_strlit("require ");
        assert(head + seq![' '] + t =~= l);
    }
    two_words(n, w);
    plain_is_trimmed(head);
    texts::words_stand_between_blanks(head, ' ', t);
    assert((seq![head] + seq![n, w]).skip(1) =~= seq![n, w]);
}

/// A module of Go's sum file is listed at its version; the lines for the modules'
/// own files are not, and a module that is listed already counts as direct.
pub proof fn go_sums_are_listed(found: Seq<DepView>, a: Seq<Seq<char>>, n: Seq<char>, v: Seq<char>)
    requires
        is_plain(n),
        is_plain(v),
        v[0] != 'v',
    ensures
        ({
            let before = deps::gosum_read(found, a);
            let known = exists|i: int| 0 <= i < before.len() && (#[trigger] before[i]).name == n;
            deps::gosum_read(found, a.push(n + seq![' '] + (seq!['v'] + v))) == before.push(
                entry(n, v, "Go"@, known, "go.sum"@),
            )
        }),
        deps::gosum_read(found, Seq::empty()) == found,
{
    let w = seq!['v'] + v;
    assert(is_plain(w));
    let l = n + seq![' '] + w;
    assert(a.push(l).drop_last() =~= a);
    two_words(n, w);
    reveal_strlit("/go.mod");
    assert("/go.mod"@[0] == '/');
    texts::plain_lacks(w, '/');
    texts::lacking_texts_have_no_part(w, "/go.mod"@, 0);
    texts::pieces_stand_between_separators(w, '/', w);
    reveal_with_fuel(pieces::trim_start_char, 2);
    assert(w.skip(1) =~= v);
}

/// A gem of a Gemfile's lock is listed at the version in its brackets.
pub proof fn gems_are_listed(a: Seq<Seq<char>>, n: Seq<char>, v: Seq<char>)
    requires
        is_plain(n),
        is_plain(v),
        deps::gem_read(a).open,
    ensures
        deps::gem_read(a.push(seq![' ', ' ', ' ', ' '] + (n + seq![' ', '('] + v + seq![')']))).found
            == deps::gem_read(a).found.push(entry(n, v, "RubyGems"@, false, "Gemfile.lock"@)),
        deps::gem_read(a.push("specs:"@)).open,
        !deps::gem_read(a.push("GEM"@)).open,
{
    let t = n + seq![' ', '('] + v + seq![')'];
    let l = seq![' ', ' ', ' ', ' '] + t;
    let e = Seq::<char>::empty();
    assert(a.push(l).drop_last() =~= a);
    assert(a.push("specs:"@).drop_last() =~= a);
    assert(a.push("GEM"@).drop_last() =~= a);
    reveal_strlit("GEM");
    reveal_strlit("GIT");
    reveal_strlit("PATH");
    reveal_strlit("specs:");
    reveal_strlit(" (");
    assert(" ("@ =~= seq![' ', '(']);
    assert("GEM"@[2] == 'M' && "GIT"@[2] == 'T' && "PATH"@[3] == 'H' && "specs:"@[5] == ':');
    assert("GEM"@.len() == 3 && "GIT"@.len() == 3 && "PATH"@.len() == 4 && "specs:"@.len() == 6);
    assert("GEM"@[0] == 'G' && "specs:"@[0] == 's');
    texts::trimmed_texts_stay("GEM"@);
    texts::trimmed_texts_stay("specs:"@);
    plain_is_trimmed(n);
    assert(t[0] == n[0] && t.last() == ')');
    texts::trimming_takes_white_ends(seq![' ', ' ', ' ', ' '], t, e);
    assert(seq![' ', ' ', ' ', ' '] + t + e =~= l);
    texts::plain_lacks(n, ' ');
    texts::parts_are_found_where_they_stand(n, " ("@, v + seq![')']);
    assert(n + " ("@ + (v + seq![')']) =~= t);
    assert(t.take(n.len() as int) =~= n);
    texts::trimmed_texts_stay(n);
    let rest = t.skip(n.len() as int + 2);
    assert(rest =~= v + seq![')']);
    reveal_with_fuel(pieces::trim_end_char, 2);
    assert(rest.drop_last() =~= v);
    assert(v.last() == v[v.len() - 1]);
}

// ---- Java and .NET ----------------------------------------------------------------------------------

/// The text of an element is what stands between its tags, without white ends.
pub proof fn elements_hold_their_text(a: Seq<char>, tag: Seq<char>, v: Seq<char>, b: Seq<char>)
    requires
        is_plain(tag),
        is_plain(v),
        lacks(a, '<'),
    ensures
        deps::element(
            a + (seq!['<'] + tag + seq!['>']) + v + (seq!['<', '/'] + tag + seq!['>']) + b,
            tag,
        ) == Some(v),
{
    reveal_strlit("<");
    reveal_strlit(">");
    reveal_strlit("</");
    assert("<"@ =~= seq!['<'] && ">"@ =~= seq!['>'] && "</"@ =~= seq!['<', '/']);
    let open = "<"@ + tag + ">"@;
    let close = "</"@ + tag + ">"@;
    let s = a + open + v + close + b;
    assert(open[0] == '<');
    assert(close[0] == '<');
    texts::parts_are_found_where_they_stand(a, open, v + close + b);
    assert(a + open + (v + close + b) =~= s);
    assert(s.skip(a.len() + open.len() as int) =~= v + close + b);
    texts::plain_lacks(v, '<');
    texts::parts_are_found_where_they_stand(v, close, b);
    assert((v + close + b).take(v.len() as int) =~= v);
    plain_is_trimmed(v);
    texts::trimmed_texts_stay(v);
}

/// A dependency of a Maven project is listed as its group and artifact with a
/// colon between, at its version; one without a version, or whose version is a
/// property, is left out.
pub proof fn maven_dependencies_are_listed(block: Seq<char>, g: Seq<char>, a: Seq<char>, v: Seq<char>)
    requires
        text::find(block, "</dependency>"@) is None,
        g.len() > 0,
        a.len() > 0,
        deps::element(block, "groupId"@) == Some(g),
        deps::element(block, "artifactId"@) == Some(a),
    ensures
        deps::element(block, "version"@) == Some(v) && v.len() > 0 && v[0] != '$'
            ==> manifests::maven_dep(block) == Some(
            entry(g + seq![':'] + a, v, "Maven"@, true, "pom.xml"@),
        ),
        deps::element(block, "version"@) == Some(seq!['$'] + v) ==> manifests::maven_dep(block) is None,
        deps::element(block, "version"@) is None ==> manifests::maven_dep(block) is None,
{
    reveal_strlit(":");
    reveal_strlit("$");
    assert(":"@ =~= seq![':'] && "$"@ =~= seq!['$']);
    texts::wholes_hold_their_parts(Seq::empty(), "$"@, v);
    if v.len() > 0 && text::starts_with(v, "$"@) {
        assert(v.subrange(0, 1)[0] == v[0]);
    }
}

/// Each block behind an opening tag is read once, in order.
pub proof fn maven_blocks_are_read_in_order(p: Seq<Seq<char>>, block: Seq<char>, d: DepView)
    requires
        p.len() > 0,
    ensures
        manifests::maven_dep(block) == Some(d) ==> manifests::maven_blocks(p.push(block))
            == manifests::maven_blocks(p).push(d),
        manifests::maven_dep(block) is None ==> manifests::maven_blocks(p.push(block))
            == manifests::maven_blocks(p),
        p.len() == 1 ==> manifests::maven_blocks(p).len() == 0,
{
    assert(p.push(block).drop_last() =~= p);
}

/// A dependency of a Gradle file, in single or double quotes, is listed as its
/// group and artifact with a colon between, at its version.
pub proof fn gradle_coordinates_are_listed(
    word: Seq<char>,
    quote: char,
    g: Seq<char>,
    a: Seq<char>,
    v: Seq<char>,
)
    requires
        is_plain(word),
        is_plain(g),
        is_plain(a),
        is_plain(v),
        quote == '\'' || quote == '"',
    ensures
        ({
            let q = seq![quote];
            let t = word + seq![' '] + q + (g + seq![':'] + (a + seq![':'] + v)) + q;
            &&& manifests::coordinate(t, quote) == seq![
                entry(g + seq![':'] + a, v, "Maven"@, true, "build.gradle"@),
            ]
            &&& manifests::coordinate(
                t,
                if quote == '"' {
                    '\''
                } else {
                    '"'
                },
            ).len() == 0
        }),
{
    reveal_strlit(":");
    assert(":"@ =~= seq![':']);
    let q = seq![quote];
    let other = if quote == '"' {
        '\''
    } else {
        '"'
    };
    let c = g + seq![':'] + (a + seq![':'] + v);
    let head = word + seq![' '];
    let t = head + q + c + q;
    texts::plain_lacks(word, quote);
    texts::plain_lacks(word, other);
    texts::plain_lacks(g, quote);
    texts::plain_lacks(a, quote);
    texts::plain_lacks(v, quote);
    texts::plain_lacks(g, other);
    texts::plain_lacks(a, other);
    texts::plain_lacks(v, other);
    texts::plain_lacks(g, ':');
    texts::plain_lacks(a, ':');
    texts::plain_lacks(v, ':');
    assert(lacks(head, quote));
    assert(lacks(c, quote));
    assert(lacks(t, other));
    texts::pieces_stand_between_separators(t, other, c);
    texts::pieces_stand_between_separators(head, quote, c + q);
    assert(head + seq![quote] + (c + q) =~= t);
    assert(t.skip(head.len() + 1 as int) =~= c + q);
    let e = Seq::<char>::empty();
    texts::pieces_stand_between_separators(c, quote, e);
    assert(c + seq![quote] + e =~= c + q);
    assert((c + q).take(c.len() as int) =~= c);
    texts::pieces_stand_between_separators(g, ':', a + seq![':'] + v);
    texts::pieces_stand_between_separators(a, ':', v);
    texts::pieces_stand_between_separators(v, ':', v);
    assert(seq![g] + (seq![a] + seq![v]) =~= seq![g, a, v]);
}

/// A package that a .NET project refers to is listed with the version that it
/// names, under the project's file.
pub proof fn csproj_references_are_listed(
    p: Seq<Seq<char>>,
    block: Seq<char>,
    file: Seq<char>,
    n: Seq<char>,
    v: Seq<char>,
)
    requires
        p.len() > 0,
        n.len() > 0,
        v.len() > 0,
        deps::attribute(block, "Include"@) == Some(n),
        deps::attribute(block, "Version"@) == Some(v),
    ensures
        manifests::csproj_blocks(p.push(block), file) == manifests::csproj_blocks(p, file).push(
            entry(n, v, "NuGet"@, true, file),
        ),
{
    assert(p.push(block).drop_last() =~= p);
}

/// The value of an attribute is what stands between its quotes.
pub proof fn attributes_hold_their_value(a: Seq<char>, name: Seq<char>, v: Seq<char>, b: Seq<char>)
    requires
        is_plain(name),
        lacks(a, name[0]),
        lacks(v, '"'),
    ensures
        deps::attribute(a + (name + seq!['=', '"']) + v + seq!['"'] + b, name) == Some(v),
{
    reveal_strlit("=\"");
    assert("=\""@ =~= seq!['=', '"']);
    let open = name + "=\""@;
    let s = a + open + v + seq!['"'] + b;
    assert(open[0] == name[0]);
    texts::parts_are_found_where_they_stand(a, open, v + seq!['"'] + b);
    assert(a + open + (v + seq!['"'] + b) =~= s);
    assert(s.skip(a.len() + open.len() as int) =~= v + seq!['"'] + b);
    texts::pieces_stand_between_separators(v, '"', b);
    assert((v + seq!['"'] + b).take(v.len() as int) =~= v);
}

// ---- a project as a whole ---------------------------------------------------------------------------

/// The first of several entries for one package is the one that stays: what is
/// listed was found, and it comes in the order in which it was found.
pub proof fn listed_packages_were_found(v: Seq<DepView>, d: DepView)
    ensures
        packages::unique(v).len() <= v.len(),
        forall|i: int| 0 <= i < packages::unique(v).len() ==> v.contains(#[trigger] packages::unique(v)[i]),
        (forall|i: int|
            0 <= i < v.len() ==> !((#[trigger] v[i]).ecosystem == d.ecosystem && text::lowercase(
                v[i].name,
            ) == text::lowercase(d.name) && v[i].version == d.version)) ==> packages::unique(v.push(d))
            == packages::unique(v).push(d),
    decreases v.len(),
{
    assert(v.push(d).drop_last() =~= v);
    if v.len() > 0 {
        let w = v.drop_last();
        listed_packages_were_found(w, d);
        assert forall|i: int| 0 <= i < packages::unique(v).len() implies v.contains(
            #[trigger] packages::unique(v)[i],
        ) by {
            let x = packages::unique(v)[i];
            if i < packages::unique(w).len() {
                assert(packages::unique(w)[i] == x);
                let k = choose|k: int| 0 <= k < w.len() && w[k] == x;
                assert(v[k] == x);
            } else {
                assert(v[v.len() - 1] == x);
            }
        }
    }
    if forall|i: int|
        0 <= i < v.len() ==> !((#[trigger] v[i]).ecosystem == d.ecosystem && text::lowercase(
            v[i].name,
        ) == text::lowercase(d.name) && v[i].version == d.version) {
        assert(!packages::has_package(packages::unique(v), d)) by {
            if packages::has_package(packages::unique(v), d) {
                let u = packages::unique(v);
                let i = choose|i: int| 0 <= i < u.len() && packages::same_package(#[trigger] u[i], d);
                assert(v.contains(u[i]));
                let k = choose|k: int| 0 <= k < v.len() && v[k] == u[i];
                assert(v[k].ecosystem == d.ecosystem);
            }
        }
    }
}

/// Packages are the same where ecosystem and version agree and the names do but
/// for the case.
pub proof fn packages_are_told_apart(a: DepView, b: DepView)
    ensures
        a.ecosystem != b.ecosystem ==> !packages::same_package(a, b),
        a.version != b.version ==> !packages::same_package(a, b),
        text::lowercase(a.name) != text::lowercase(b.name) ==> !packages::same_package(a, b),
        a.ecosystem == b.ecosystem && a.version == b.version && a.name == b.name
            ==> packages::same_package(a, b),
{
}

} // verus!
