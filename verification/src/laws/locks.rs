//! Further lock files: pnpm, pyproject and the libraries of .NET.

use vstd::prelude::*;
use crate::deps;
use crate::json;
use crate::json::JsonView;
use crate::laws::packages::{entry, plain_is_trimmed};
use crate::laws::packages;
use crate::laws::texts;
use crate::laws::texts::{is_plain, is_plain_char, lacks};
use crate::lockfiles;
use crate::pieces;
use crate::text;

verus! {

broadcast use vstd::seq::group_seq_axioms;

proof fn key_of_line(n: Seq<char>, v: Seq<char>, slash: bool)
    requires
        is_plain(n),
        is_plain(v),
    ensures
        ({
            let key = n + seq!['@'] + v;
            let t = if slash {
                seq!['/'] + key + seq![':']
            } else {
                key + seq![':']
            };
            let line = seq![' ', ' '] + t;
            &&& pieces::trim(line) == t
            &&& t.len() > 0 && t[0] != ' ' && t.last() == ':'
            &&& lockfiles::pnpm_key(line) == key
        }),
{
    let key = n + seq!['@'] + v;
    let k2 = if slash {
        seq!['/'] + key
    } else {
        key
    };
    let t = k2 + seq![':'];
    let line = seq![' ', ' '] + t;
    let e = Seq::<char>::empty();
    assert(t =~= if slash {
        seq!['/'] + key + seq![':']
    } else {
        key + seq![':']
    });
    assert(key[0] == n[0] && is_plain_char(n[0]));
    assert(t[0] == '/' || t[0] == n[0]);
    texts::trimming_takes_white_ends(seq![' ', ' '], t, e);
    assert(seq![' ', ' '] + t + e =~= line);
    assert(key.last() == v[v.len() - 1] && is_plain_char(v[v.len() - 1]));
    assert(k2.last() == key.last());
    texts::ends_come_off(k2, ':');
    assert(k2[0] == '/' || k2[0] == n[0]);
    texts::quotes_come_off(k2, '\'');
    texts::quotes_come_off(k2, '"');
    reveal_with_fuel(pieces::trim_start_char, 2);
    if slash {
        assert(k2.skip(1) =~= key);
    }
}

proof fn package_of_key(n: Seq<char>, v: Seq<char>)
    requires
        is_plain(n),
        is_plain(v),
        lacks(v, '_'),
    ensures
        ({
            let key = n + seq!['@'] + v;
            &&& lockfiles::name_end(key) == Some(n.len() as int)
            &&& key.take(n.len() as int) == n
            &&& pieces::first_piece(
                pieces::first_piece(key.skip(n.len() as int + 1), '('),
                '_',
            ) == v
        }),
{
    let key = n + seq!['@'] + v;
    assert(key[0] == n[0] && is_plain_char(n[0]));
    texts::plain_lacks(n, '@');
    texts::plain_lacks(n, '/');
    texts::plain_lacks(v, '/');
    texts::plain_lacks(v, '(');
    pieces::index_from_bounds(key, '@', 1);
    pieces::index_from_bounds(key, '/', 0);
    assert(key[n.len() as int] == '@');
    assert(lacks(key, '/'));
    match pieces::index_from(key, '@', 1) {
        Some(k) => {
            if k < n.len() {
                assert(key[k] == n[k]);
            }
        },
        None => {},
    }
    assert(key.take(n.len() as int) =~= n);
    assert(key.skip(n.len() as int + 1) =~= v);
    texts::pieces_stand_between_separators(v, '(', v);
    texts::pieces_stand_between_separators(v, '_', v);
}

/// A package of pnpm's lock is listed with the version behind its name, with or
/// without a slash before it, while the packages are listed.
pub proof fn pnpm_packages_are_listed(a: Seq<Seq<char>>, n: Seq<char>, v: Seq<char>, slash: bool)
    requires
        is_plain(n),
        is_plain(v),
        lacks(v, '_'),
        lockfiles::pnpm_read(a).open,
    ensures
        ({
            let key = n + seq!['@'] + v;
            let t = if slash {
                seq!['/'] + key + seq![':']
            } else {
                key + seq![':']
            };
            lockfiles::pnpm_read(a.push(seq![' ', ' '] + t)).found == lockfiles::pnpm_read(
                a,
            ).found.push(entry(n, v, "npm"@, false, "pnpm-lock.yaml"@))
        }),
{
    let key = n + seq!['@'] + v;
    let t = if slash {
        seq!['/'] + key + seq![':']
    } else {
        key + seq![':']
    };
    let line = seq![' ', ' '] + t;
    assert(a.push(line).drop_last() =~= a);
    key_of_line(n, v, slash);
    package_of_key(n, v);
    reveal_strlit("  ");
    reveal_strlit("   ");
    reveal_strlit(":");
    assert("  "@ =~= seq![' ', ' ']);
    assert("   "@ =~= seq![' ', ' ', ' ']);
    assert(":"@ =~= seq![':']);
    texts::wholes_hold_their_parts(Seq::empty(), "  "@, t);
    if text::starts_with(line, "   "@) {
        assert(line.subrange(0, 3)[2] == line[2]);
        assert(line[2] == t[0]);
    }
    assert(t.subrange(t.len() - 1, t.len() as int) =~= seq![':']);
    assert(line[0] == ' ');
}

/// The packages of pnpm's lock stand in their section: its heading opens it, and
/// another one closes it.
pub proof fn pnpm_sections_open_and_close(a: Seq<Seq<char>>)
    ensures
        lockfiles::pnpm_read(a.push("packages:"@)).open,
        !lockfiles::pnpm_read(a.push("dependencies:"@)).open,
        lockfiles::pnpm_read(a.push("packages:"@)).found == lockfiles::pnpm_read(a).found,
        !lockfiles::pnpm_read(Seq::empty()).open,
{
    reveal_strlit("packages:");
    reveal_strlit("dependencies:");
    assert("packages:"@.len() == 9 && "packages:"@[0] == 'p' && "packages:"@[8] == ':');
    assert("dependencies:"@.len() == 13 && "dependencies:"@[0] == 'd' && "dependencies:"@[12]
        == ':');
    texts::trimmed_texts_stay("packages:"@);
    texts::trimmed_texts_stay("dependencies:"@);
    assert(a.push("packages:"@).drop_last() =~= a);
    assert(a.push("dependencies:"@).drop_last() =~= a);
}

proof fn quoted_requirement(n: Seq<char>, k: int, v: Seq<char>)
    requires
        is_plain(n),
        is_plain(v),
        n[0] != '-',
        0 <= k < 8,
    ensures
        ({
            let r = n + deps::OPS@[k]@ + v;
            let t = seq!['"'] + r + seq!['"', ','];
            lockfiles::listed_requirements(t) == seq![
                entry(n, v, "PyPI"@, true, "pyproject.toml"@),
            ]
        }),
{
    packages::requirements_give_name_and_version(n, k, v, v);
    let op = deps::OPS@[k]@;
    let r = n + op + v;
    let t = seq!['"'] + r + seq!['"', ','];
    assert(lacks(r, '"') && lacks(r, ';') && lacks(r, '\'')) by {
        signs_of_ops(k);
        texts::plain_lacks(n, '"');
        texts::plain_lacks(v, '"');
        texts::plain_lacks(n, ';');
        texts::plain_lacks(v, ';');
        texts::plain_lacks(n, '\'');
        texts::plain_lacks(v, '\'');
    }
    let e = Seq::<char>::empty();
    let rest = r + seq!['"'] + seq![','];
    assert(e + seq!['"'] + rest =~= t);
    texts::pieces_stand_between_separators(e, '"', rest);
    texts::pieces_stand_between_separators(r, '"', seq![',']);
    texts::pieces_stand_between_separators(seq![','], '"', e);
    assert(lacks(t, '\''));
    texts::pieces_stand_between_separators(t, '\'', e);
    texts::pieces_stand_between_separators(r, ';', e);
    let p = seq![e, r, seq![',']];
    assert(seq![e] + (seq![r] + seq![seq![',']]) =~= p);
    reveal_with_fuel(lockfiles::quoted_requirements, 4);
    assert(p.drop_last() =~= seq![e, r]);
    assert(p.drop_last().drop_last() =~= seq![e]);
    assert(p.drop_last().drop_last().drop_last() =~= Seq::<Seq<char>>::empty());
    let x = entry(n, v, "PyPI"@, true, "pyproject.toml"@);
    assert(Seq::<crate::packages::DepView>::empty().push(x) =~= seq![x]);
}

proof fn signs_of_ops(k: int)
    requires
        0 <= k < 8,
    ensures
        lacks(deps::OPS@[k]@, '"') && lacks(deps::OPS@[k]@, ';') && lacks(deps::OPS@[k]@, '\''),
{
    reveal_strlit("===");
    reveal_strlit("~=");
    reveal_strlit("==");
    reveal_strlit(">=");
    reveal_strlit("<=");
    reveal_strlit("!=");
    reveal_strlit(">");
    reveal_strlit("<");
    assert("==="@ =~= seq!['=', '=', '=']);
    assert("~="@ =~= seq!['~', '=']);
    assert("=="@ =~= seq!['=', '=']);
    assert(">="@ =~= seq!['>', '=']);
    assert("<="@ =~= seq!['<', '=']);
    assert("!="@ =~= seq!['!', '=']);
    assert(">"@ =~= seq!['>']);
    assert("<"@ =~= seq!['<']);
}

/// A requirement in the list of a project's dependencies, in quotes on a line of
/// its own, gives its package.
pub proof fn project_requirements_are_listed(a: Seq<Seq<char>>, n: Seq<char>, k: int, v: Seq<char>)
    requires
        is_plain(n),
        is_plain(v),
        n[0] != '-',
        0 <= k < 8,
        lockfiles::project_read(a).open,
    ensures
        ({
            let line = seq![' ', ' '] + (seq!['"'] + (n + deps::OPS@[k]@ + v) + seq!['"', ',']);
            lockfiles::project_read(a.push(line)).found == lockfiles::project_read(a).found.push(
                entry(n, v, "PyPI"@, true, "pyproject.toml"@),
            ) && lockfiles::project_read(a.push(line)).open
        }),
{
    let t = seq!['"'] + (n + deps::OPS@[k]@ + v) + seq!['"', ','];
    let line = seq![' ', ' '] + t;
    let e = Seq::<char>::empty();
    assert(a.push(line).drop_last() =~= a);
    assert(t[0] == '"' && t.last() == ',');
    texts::trimming_takes_white_ends(seq![' ', ' '], t, e);
    assert(seq![' ', ' '] + t + e =~= line);
    quoted_requirement(n, k, v);
    reveal_strlit("]");
    assert("]"@ =~= seq![']']);
    if text::starts_with(t, "]"@) {
        assert(t.subrange(0, 1)[0] == t[0]);
    }
    if text::ends_with(t, "]"@) {
        assert(t.subrange(t.len() - 1, t.len() as int)[0] == t.last());
    }
    let x = entry(n, v, "PyPI"@, true, "pyproject.toml"@);
    let f = lockfiles::project_read(a).found;
    assert(f + seq![x] =~= f.push(x));
}

proof fn poetry_value(v: Seq<char>, sign: char)
    requires
        is_plain(v),
        '0' <= v[0] <= '9',
        sign == '^' || sign == '~',
    ensures
        lockfiles::poetry_version(seq![' ', '"'] + (seq![sign] + v) + seq!['"']) == v,
{
    let q = seq!['"'];
    let told = seq![sign] + v;
    let w = q + told + q;
    let value = seq![' ', '"'] + told + q;
    let e = Seq::<char>::empty();
    assert(w[0] == '"' && w.last() == '"');
    texts::trimming_takes_white_ends(seq![' '], w, e);
    assert(seq![' '] + w + e =~= value);
    reveal_strlit("{");
    assert("{"@ =~= seq!['{']);
    if text::starts_with(w, "{"@) {
        assert(w.subrange(0, 1)[0] == w[0]);
    }
    texts::plain_lacks(v, '"');
    texts::plain_lacks(v, '\'');
    assert(lacks(told, '"'));
    assert(lacks(w, '\''));
    texts::pieces_stand_between_separators(w, '\'', e);
    texts::pieces_stand_between_separators(e, '"', told + q);
    assert(e + seq!['"'] + (told + q) =~= w);
    texts::pieces_stand_between_separators(told, '"', e);
    assert(told + seq!['"'] + e =~= told + q);
    texts::pieces_stand_between_separators(e, '"', e);
    let p = pieces::split_char(w, '"');
    assert(p =~= seq![e, told, e]);
    reveal_with_fuel(lockfiles::without_signs, 3);
    assert(told.skip(1) =~= v);
    texts::plain_lacks(v, ',');
    texts::pieces_stand_between_separators(v, ',', e);
    plain_is_trimmed(v);
    texts::trimmed_texts_stay(v);
}

/// A dependency of a Poetry project, with a caret or a tilde before its version,
/// gives its package at that version; the Python that it asks for is no package.
pub proof fn poetry_dependencies_are_listed(a: Seq<Seq<char>>, n: Seq<char>, v: Seq<char>, sign: char)
    requires
        is_plain(n),
        is_plain(v),
        '0' <= v[0] <= '9',
        sign == '^' || sign == '~',
        lockfiles::project_read(a).poetry,
        !lockfiles::project_read(a).open,
        !lockfiles::project_read(a).project,
    ensures
        ({
            let line = n + seq![' '] + seq!['='] + (seq![' ', '"'] + (seq![sign] + v) + seq!['"']);
            &&& n != "python"@ ==> lockfiles::project_read(a.push(line)).found
                == lockfiles::project_read(a).found.push(
                entry(n, v, "PyPI"@, true, "pyproject.toml"@),
            )
            &&& n == "python"@ ==> lockfiles::project_read(a.push(line)).found
                == lockfiles::project_read(a).found
        }),
{
    let value = seq![' ', '"'] + (seq![sign] + v) + seq!['"'];
    let head = n + seq![' '];
    let line = head + seq!['='] + value;
    assert(a.push(line).drop_last() =~= a);
    poetry_value(v, sign);
    plain_is_trimmed(n);
    assert(line[0] == n[0] && line.last() == '"');
    texts::trimmed_texts_stay(line);
    reveal_strlit("[");
    assert("["@ =~= seq!['[']);
    if text::starts_with(line, "["@) {
        assert(line.subrange(0, 1)[0] == line[0]);
    }
    texts::plain_lacks(n, '=');
    assert(lacks(head, '='));
    texts::pieces_stand_between_separators(head, '=', value);
    assert(line.take(head.len() as int) =~= head);
    assert(line.skip(head.len() as int + 1) =~= value);
    let e = Seq::<char>::empty();
    texts::trimming_takes_white_ends(e, n, seq![' ']);
    assert(e + n + seq![' '] =~= head);
    texts::plain_lacks(n, '"');
    assert(n.last() == n[n.len() - 1]);
    texts::quotes_come_off(n, '"');
}

/// The headings of a project file tell what its lines are.
pub proof fn project_headings_are_understood(a: Seq<Seq<char>>)
    requires
        !lockfiles::project_read(a).open,
    ensures
        lockfiles::project_read(a.push("[project]"@)).project,
        !lockfiles::project_read(a.push("[project]"@)).poetry,
        lockfiles::project_read(a.push("[tool.poetry.dependencies]"@)).poetry,
        !lockfiles::project_read(a.push("[tool.poetry.dependencies]"@)).project,
        lockfiles::project_read(a.push("[project]"@)).found == lockfiles::project_read(a).found,
{
    let p = "[project]"@;
    let q = "[tool.poetry.dependencies]"@;
    reveal_strlit("[project]");
    reveal_strlit("[tool.poetry.dependencies]");
    reveal_strlit("[tool.poetry.dev-dependencies]");
    reveal_strlit("[tool.poetry.group.");
    reveal_strlit("[");
    assert("["@ =~= seq!['[']);
    assert(p.len() == 9 && p[0] == '[' && p[8] == ']');
    assert(q.len() == 26 && q[0] == '[' && q[25] == ']');
    assert("[tool.poetry.dev-dependencies]"@.len() == 30);
    assert("[tool.poetry.group."@.len() == 19);
    texts::trimmed_texts_stay(p);
    texts::trimmed_texts_stay(q);
    assert(p.subrange(0, 1) =~= "["@);
    assert(q.subrange(0, 1) =~= "["@);
    assert(a.push(p).drop_last() =~= a);
    assert(a.push(q).drop_last() =~= a);
}

/// A library of a .NET application is listed with the version behind its name,
/// where it is a package.
pub proof fn libraries_are_listed(
    e: Seq<(Seq<char>, JsonView)>,
    n: Seq<char>,
    v: Seq<char>,
    o: JsonView,
    file: Seq<char>,
)
    requires
        n.len() > 0,
        v.len() > 0,
        lacks(n, '/'),
    ensures
        json::field(o, "type"@) == Some(JsonView::Str("package"@)) ==> lockfiles::libraries(
            e.push((n + seq!['/'] + v, o)),
            file,
        ) == lockfiles::libraries(e, file).push(entry(n, v, "NuGet"@, false, file)),
        json::field(o, "type"@) is None ==> lockfiles::libraries(
            e.push((n + seq!['/'] + v, o)),
            file,
        ) == lockfiles::libraries(e, file),
{
    let key = n + seq!['/'] + v;
    assert(e.push((key, o)).drop_last() =~= e);
    texts::pieces_stand_between_separators(n, '/', v);
    assert(key.take(n.len() as int) =~= n);
    assert(key.skip(n.len() as int + 1) =~= v);
}

proof fn first_at(s: Seq<char>, c: char, from: int, k: int)
    requires
        0 <= from <= k < s.len(),
        s[k] == c,
        forall|j: int| from <= j < k ==> #[trigger] s[j] != c,
    ensures
        pieces::index_from(s, c, from) == Some(k),
    decreases k - from,
{
    if from < k {
        first_at(s, c, from + 1, k);
    }
}

proof fn nowhere(s: Seq<char>, c: char, from: int)
    requires
        0 <= from <= s.len(),
        forall|j: int| from <= j < s.len() ==> #[trigger] s[j] != c,
    ensures
        pieces::index_from(s, c, from) is None,
    decreases s.len() - from,
{
    if from < s.len() {
        nowhere(s, c, from + 1);
    }
}

/// The name in a key of pnpm ends where its version begins, behind an at sign or a
/// slash; the slash of a scope belongs to the name.
pub proof fn names_end_at_their_version(n: Seq<char>, scope: Seq<char>, v: Seq<char>)
    requires
        n.len() > 0,
        lacks(n, '/') && lacks(n, '@'),
        lacks(scope, '/') && lacks(scope, '@'),
        lacks(v, '/') && lacks(v, '@'),
    ensures
        lockfiles::name_end(n + seq!['@'] + v) == Some(n.len() as int),
        lockfiles::name_end(n + seq!['/'] + v) == Some(n.len() as int),
        ({
            let full = seq!['@'] + scope + seq!['/'] + n;
            &&& lockfiles::name_end(full + seq!['@'] + v) == Some(full.len() as int)
            &&& lockfiles::name_end(full + seq!['/'] + v) == Some(full.len() as int)
        }),
{
    let a = n + seq!['@'] + v;
    assert(a[0] == n[0]);
    first_at(a, '@', 1, n.len() as int);
    nowhere(a, '/', 0);
    let b = n + seq!['/'] + v;
    assert(b[0] == n[0]);
    nowhere(b, '@', 1);
    first_at(b, '/', 0, n.len() as int);
    let full = seq!['@'] + scope + seq!['/'] + n;
    let m = scope.len() as int + 1;
    let c = full + seq!['@'] + v;
    assert(c[m] == '/' && c[0] == '@');
    first_at(c, '/', 0, m);
    nowhere(c, '/', m + 1);
    first_at(c, '@', 1, full.len() as int);
    let d = full + seq!['/'] + v;
    assert(d[m] == '/' && d[0] == '@');
    first_at(d, '/', 0, m);
    first_at(d, '/', m + 1, full.len() as int);
    nowhere(d, '@', 1);
}

} // verus!
