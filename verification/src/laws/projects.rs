//! Projects as a whole: every file that lists packages is read.

use vstd::prelude::*;
use crate::deps;
use crate::graph;
use crate::json;
use crate::json::JsonView;
use crate::laws::packages::entry;
use crate::laws::packages;
use crate::laws::texts;
use crate::laws::texts::is_plain;
use crate::lockfiles;
use crate::manifests;
use crate::manifests::Manifests;
use crate::packages::DepView;
use crate::pieces;
use crate::text;

verus! {

broadcast use vstd::seq::group_seq_axioms;

/// A list has the package `d`: one of the same ecosystem and version, under its
/// name in any case.
pub open spec fn lists(v: Seq<DepView>, d: DepView) -> bool {
    exists|i: int|
        0 <= i < v.len() && (#[trigger] v[i]).ecosystem == d.ecosystem && text::lowercase(v[i].name)
            == text::lowercase(d.name) && v[i].version == d.version
}

/// A list has all packages of another.
pub open spec fn lists_all(v: Seq<DepView>, w: Seq<DepView>) -> bool {
    forall|k: int| 0 <= k < w.len() ==> lists(v, #[trigger] w[k])
}

proof fn unique_lists(v: Seq<DepView>, d: DepView)
    requires
        v.contains(d),
    ensures
        lists(crate::packages::unique(v), d),
{
    crate::packages::unique_keeps_one_of_each(v);
    let k = choose|k: int| 0 <= k < v.len() && v[k] == d;
    let u = crate::packages::unique(v);
    assert(crate::packages::has_package(u, v[k]));
    let i = choose|i: int| 0 <= i < u.len() && crate::packages::same_package(#[trigger] u[i], d);
    assert(u[i].ecosystem == d.ecosystem);
}

proof fn part_listed(a: Seq<DepView>, b: Seq<DepView>, c: Seq<DepView>)
    ensures
        lists_all(crate::packages::unique(a + b + c), b),
{
    let v = a + b + c;
    assert forall|k: int| 0 <= k < b.len() implies lists(
        crate::packages::unique(v),
        #[trigger] b[k],
    ) by {
        assert(v[a.len() + k] == b[k]);
        unique_lists(v, b[k]);
    }
}

/// The packages of every language of a project are listed: those of Python, Node,
/// Go, Rust, Ruby, PHP, Java and .NET.
pub proof fn projects_list_every_language(m: Manifests, gems: String, php: String)
    ensures
        ({
            let p = manifests::project_deps(m);
            &&& lists_all(p, manifests::python_deps(m))
            &&& lists_all(p, manifests::nodejs_deps(m))
            &&& lists_all(p, manifests::go_deps(m))
            &&& lists_all(p, manifests::rust_deps(m))
            &&& m.gemfile_lock == Some(gems) ==> lists_all(
                p,
                deps::gem_read(pieces::lines(gems@)).found,
            )
            &&& m.composer_lock == Some(php) ==> lists_all(p, deps::composer_deps(php@))
            &&& lists_all(p, manifests::java_deps(m))
            &&& lists_all(p, manifests::dotnet_deps(m))
        }),
{
    let a = manifests::python_deps(m);
    let b = manifests::nodejs_deps(m);
    let c = manifests::go_deps(m);
    let d = manifests::rust_deps(m);
    let e = match m.gemfile_lock {
        Some(c) => deps::gem_read(pieces::lines(c@)).found,
        None => Seq::empty(),
    };
    let f = match m.composer_lock {
        Some(c) => deps::composer_deps(c@),
        None => Seq::empty(),
    };
    let g = manifests::java_deps(m);
    let h = manifests::dotnet_deps(m);
    let s1 = a;
    has_itself(a);
    let s2 = s1 + b;
    let s3 = s2 + c;
    let s4 = s3 + d;
    let s5 = s4 + e;
    let s6 = s5 + f;
    let s7 = s6 + g;
    let s8 = s7 + h;
    assert(holds_all(s8, a)) by {
        grows(s1, b, a);
        grows(s2, c, a);
        grows(s3, d, a);
        grows(s4, e, a);
        grows(s5, f, a);
        grows(s6, g, a);
        grows(s7, h, a);
    }
    unique_lists_all(s8, a);
    assert(holds_all(s8, b)) by {
        has_itself(b);
        grows(s1, b, b);
        grows(s2, c, b);
        grows(s3, d, b);
        grows(s4, e, b);
        grows(s5, f, b);
        grows(s6, g, b);
        grows(s7, h, b);
    }
    unique_lists_all(s8, b);
    assert(holds_all(s8, c)) by {
        has_itself(c);
        grows(s2, c, c);
        grows(s3, d, c);
        grows(s4, e, c);
        grows(s5, f, c);
        grows(s6, g, c);
        grows(s7, h, c);
    }
    unique_lists_all(s8, c);
    assert(holds_all(s8, d)) by {
        has_itself(d);
        grows(s3, d, d);
        grows(s4, e, d);
        grows(s5, f, d);
        grows(s6, g, d);
        grows(s7, h, d);
    }
    unique_lists_all(s8, d);
    assert(holds_all(s8, e)) by {
        has_itself(e);
        grows(s4, e, e);
        grows(s5, f, e);
        grows(s6, g, e);
        grows(s7, h, e);
    }
    unique_lists_all(s8, e);
    assert(holds_all(s8, f)) by {
        has_itself(f);
        grows(s5, f, f);
        grows(s6, g, f);
        grows(s7, h, f);
    }
    unique_lists_all(s8, f);
    assert(holds_all(s8, g)) by {
        has_itself(g);
        grows(s6, g, g);
        grows(s7, h, g);
    }
    unique_lists_all(s8, g);
    assert(holds_all(s8, h)) by {
        has_itself(h);
        grows(s7, h, h);
    }
    unique_lists_all(s8, h);
}

/// A list holds each entry of another.
pub open spec fn holds_all(v: Seq<DepView>, w: Seq<DepView>) -> bool {
    forall|k: int| 0 <= k < w.len() ==> v.contains(#[trigger] w[k])
}

proof fn has_itself(v: Seq<DepView>)
    ensures
        holds_all(v, v),
{
}

proof fn grows(a: Seq<DepView>, b: Seq<DepView>, w: Seq<DepView>)
    requires
        holds_all(a, w) || holds_all(b, w),
    ensures
        holds_all(a + b, w),
{
    let c = a + b;
    assert forall|k: int| 0 <= k < w.len() implies c.contains(#[trigger] w[k]) by {
        if holds_all(a, w) {
            let i = choose|i: int| 0 <= i < a.len() && a[i] == w[k];
            assert(c[i] == w[k]);
        } else {
            let i = choose|i: int| 0 <= i < b.len() && b[i] == w[k];
            assert(c[a.len() + i] == w[k]);
        }
    }
}

proof fn unique_lists_all(v: Seq<DepView>, w: Seq<DepView>)
    requires
        holds_all(v, w),
    ensures
        lists_all(crate::packages::unique(v), w),
{
    assert forall|k: int| 0 <= k < w.len() implies lists(
        crate::packages::unique(v),
        #[trigger] w[k],
    ) by {
        unique_lists(v, w[k]);
    }
}

/// What has a part has it as a whole.
proof fn has_part(a: Seq<DepView>, b: Seq<DepView>, c: Seq<DepView>, k: int)
    requires
        0 <= k < b.len(),
    ensures
        (a + b + c).contains(b[k]),
{
    assert((a + b + c)[a.len() + k] == b[k]);
}

/// Each Python file of a project is read: requirements, Poetry's lock, Pipenv's
/// lock and the project file.
pub proof fn python_files_are_read(m: Manifests, c: String, k: int)
    requires
        0 <= k,
    ensures
        m.poetry_lock == Some(c) && k < deps::poetry_deps(c@).len() ==> manifests::python_deps(
            m,
        ).contains(deps::poetry_deps(c@)[k]),
        m.pipfile_lock == Some(c) && k < deps::pipfile_deps(c@).len() ==> manifests::python_deps(
            m,
        ).contains(deps::pipfile_deps(c@)[k]),
        m.pyproject == Some(c) && k < lockfiles::project_read(pieces::lines(c@)).found.len()
            ==> manifests::python_deps(m).contains(
            lockfiles::project_read(pieces::lines(c@)).found[k],
        ),
        k < deps::all_requirements(deps::file_views(m.requirements@)).len()
            ==> manifests::python_deps(m).contains(
            deps::all_requirements(deps::file_views(m.requirements@))[k],
        ),
{
    let a = deps::all_requirements(deps::file_views(m.requirements@));
    let b = match m.poetry_lock {
        Some(c) => deps::poetry_deps(c@),
        None => Seq::empty(),
    };
    let d = match m.pipfile_lock {
        Some(c) => deps::pipfile_deps(c@),
        None => Seq::empty(),
    };
    let e = match m.pyproject {
        Some(c) => lockfiles::project_read(pieces::lines(c@)).found,
        None => Seq::empty(),
    };
    let z = Seq::<DepView>::empty();
    let all = a + b + d + e;
    if k < a.len() {
        has_part(z, a, b + d + e, k);
        assert(z + a + (b + d + e) =~= all);
    }
    if k < b.len() {
        has_part(a, b, d + e, k);
        assert(a + b + (d + e) =~= all);
    }
    if k < d.len() {
        has_part(a + b, d, e, k);
    }
    if k < e.len() {
        has_part(a + b + d, e, z, k);
        assert(a + b + d + e + z =~= all);
    }
}

/// Of the locks of a Node project the first that lists something is read: npm's,
/// then Yarn's, then pnpm's.
pub proof fn node_locks_are_read_in_turn(m: Manifests, n: String, y: String, p: String)
    requires
        m.package_lock == Some(n),
        m.yarn_lock == Some(y),
        m.pnpm_lock == Some(p),
    ensures
        ({
            let npm = deps::npm_deps(n@);
            let yarn = deps::yarn_read(pieces::lines(y@)).found;
            let pnpm = lockfiles::pnpm_read(pieces::lines(p@)).found;
            &&& npm.len() > 0 ==> manifests::nodejs_deps(m) == npm
            &&& npm.len() == 0 && yarn.len() > 0 ==> manifests::nodejs_deps(m) == yarn
            &&& npm.len() == 0 && yarn.len() == 0 ==> manifests::nodejs_deps(m) == pnpm
        }),
{
}

/// Go's modules are those that are required, and then those of the sum file;
/// Rust's are those of the lock.
pub proof fn go_and_rust_files_are_read(m: Manifests, a: String, b: String, l: String, t: String)
    ensures
        m.go_mod == Some(a) && m.go_sum is None ==> manifests::go_deps(m) == deps::gomod_read(
            pieces::lines(a@),
        ).found,
        m.go_mod == Some(a) && m.go_sum == Some(b) ==> manifests::go_deps(m) == deps::gosum_read(
            deps::gomod_read(pieces::lines(a@)).found,
            pieces::lines(b@),
        ),
        m.cargo_lock == Some(l) && m.cargo_toml == Some(t) ==> manifests::rust_deps(m)
            == deps::cargo_deps(l@, t@),
        m.cargo_lock is None ==> manifests::rust_deps(m).len() == 0,
{
}

/// Java's dependencies are those of Maven and then those of Gradle; .NET's those
/// of the lock, of the projects and of the libraries.
pub proof fn java_and_dotnet_files_are_read(m: Manifests, p: String, g: String, n: String, k: int)
    requires
        0 <= k,
    ensures
        m.pom == Some(p) && m.gradle == Some(g) ==> manifests::java_deps(m) == manifests::maven_deps(
            p@,
        ) + manifests::gradle_deps(pieces::lines(g@)),
        m.nuget_lock == Some(n) && k < manifests::nuget_deps(n@).len() ==> manifests::dotnet_deps(
            m,
        ).contains(manifests::nuget_deps(n@)[k]),
        k < manifests::all_csproj(deps::file_views(m.csproj@)).len() ==> manifests::dotnet_deps(
            m,
        ).contains(manifests::all_csproj(deps::file_views(m.csproj@))[k]),
        k < lockfiles::all_deps_json(deps::file_views(m.deps_json@)).len()
            ==> manifests::dotnet_deps(m).contains(
            lockfiles::all_deps_json(deps::file_views(m.deps_json@))[k],
        ),
{
    let a = match m.nuget_lock {
        Some(c) => manifests::nuget_deps(c@),
        None => Seq::empty(),
    };
    let b = manifests::all_csproj(deps::file_views(m.csproj@));
    let c = lockfiles::all_deps_json(deps::file_views(m.deps_json@));
    let z = Seq::<DepView>::empty();
    if k < a.len() {
        has_part(z, a, b + c, k);
        assert(z + a + (b + c) =~= a + b + c);
    }
    if k < b.len() {
        has_part(a, b, c, k);
    }
    if k < c.len() {
        has_part(a + b, c, z, k);
        assert(a + b + c + z =~= a + b + c);
    }
}

/// Several files of a kind are read one after another, each under its own name.
pub proof fn files_are_read_one_by_one(
    v: Seq<(Seq<char>, Seq<char>)>,
    name: Seq<char>,
    content: Seq<char>,
)
    ensures
        deps::all_requirements(v.push((name, content))) == deps::all_requirements(v)
            + deps::requirement_deps(pieces::lines(content), name),
        manifests::all_csproj(v.push((name, content))) == manifests::all_csproj(v)
            + manifests::csproj_deps(content, name),
        lockfiles::all_deps_json(v.push((name, content))) == lockfiles::all_deps_json(v)
            + lockfiles::deps_json_deps(content, name),
        deps::all_requirements(Seq::empty()).len() == 0,
{
    assert(v.push((name, content)).drop_last() =~= v);
}

/// A container lists the packages of its system and those of its applications.
pub proof fn containers_list_system_and_applications(
    d: Seq<char>,
    a: Seq<char>,
    eco: Seq<char>,
    m: Manifests,
)
    ensures
        ({
            let r = manifests::container_deps(Some(d), Some(a), eco, m);
            &&& lists_all(
                r,
                manifests::dpkg_closed(manifests::dpkg_read(pieces::lines(d), eco), eco),
            )
            &&& lists_all(
                r,
                deps::closed(
                    manifests::apk_read(pieces::lines(a)),
                    "Alpine"@,
                    "apk/db/installed"@,
                    true,
                ),
            )
            &&& lists_all(r, manifests::project_deps(m))
        }),
{
    let x = manifests::dpkg_closed(manifests::dpkg_read(pieces::lines(d), eco), eco);
    let y = deps::closed(
        manifests::apk_read(pieces::lines(a)),
        "Alpine"@,
        "apk/db/installed"@,
        true,
    );
    let p = manifests::project_deps(m);
    let z = Seq::<DepView>::empty();
    part_listed(z, x, y + p);
    assert(z + x + (y + p) =~= x + y + p);
    part_listed(x, y, p);
    part_listed(x + y, p, z);
    assert(x + y + p + z =~= x + y + p);
}

/// The packages of npm's lock come from its table of packages, and the root of
/// that table says which of them are direct.
pub proof fn npm_locks_are_read(
    v: JsonView,
    e: Seq<(Seq<char>, JsonView)>,
    root: JsonView,
    direct: Seq<(Seq<char>, JsonView)>,
    i: int,
)
    requires
        json::field(v, "packages"@) == Some(JsonView::Obj(e)),
        json::field(JsonView::Obj(e), ""@) == Some(root),
        json::field(root, "dependencies"@) == Some(JsonView::Obj(direct)),
        0 <= i < deps::npm_entries(e, direct).len(),
    ensures
        ({
            let r = deps::npm_of(v);
            let x = deps::npm_entries(e, direct)[i];
            &&& r.len() == deps::npm_entries(e, direct).len()
            &&& r[i].name == x.name && r[i].version == x.version && r[i].ecosystem == x.ecosystem
            &&& r[i].is_direct == x.is_direct && r[i].manifest == x.manifest
        }),
{
    let found = deps::npm_entries(e, direct);
    packages::chains_keep_what_was_found(
        found,
        graph::found_in_folders(found, deps::npm_needs(e)),
        i,
    );
}

/// The packages of Cargo's lock are those that its stanzas give.
pub proof fn cargo_locks_are_read(lock: Seq<char>, manifest: Seq<char>, i: int)
    ensures
        ({
            let direct = deps::cargo_keys(pieces::lines(manifest));
            let found = deps::cargo_closed(
                deps::cargo_read(pieces::lines(lock), direct),
                direct,
            ).found;
            let r = deps::cargo_deps(lock, manifest);
            0 <= i < found.len() ==> r.len() == found.len() && r[i].name == found[i].name
                && r[i].version == found[i].version && r[i].is_direct == found[i].is_direct
                && r[i].ecosystem == found[i].ecosystem
        }),
{
    let direct = deps::cargo_keys(pieces::lines(manifest));
    let s = deps::cargo_closed(deps::cargo_read(pieces::lines(lock), direct), direct);
    if 0 <= i < s.found.len() {
        packages::chains_keep_what_was_found(s.found, graph::needs_of(s.found, s.lists), i);
    }
}

/// The stanzas of Cargo's lock are read one after another: a heading closes the
/// one before it, and keeps what was found.
pub proof fn cargo_headings_close_stanzas(a: Seq<Seq<char>>, direct: Seq<Seq<char>>)
    ensures
        ({
            let s = deps::cargo_read(a, direct);
            let r = deps::cargo_read(a.push("[[package]]"@), direct);
            &&& s.name.len() > 0 && s.version.len() > 0 ==> r.found == s.found.push(
                entry(s.name, s.version, "crates.io"@, direct.contains(s.name), "Cargo.lock"@),
            ) && r.lists == s.lists.push(s.wants)
            &&& s.name.len() == 0 ==> r.found == s.found
            &&& r.name.len() == 0 && r.version.len() == 0 && r.wants.len() == 0 && !r.open
        }),
{
    assert(a.push("[[package]]"@).drop_last() =~= a);
}

/// What a stanza of Cargo's lock depends on is listed in it, in quotes.
pub proof fn cargo_dependencies_are_listed(s: deps::CargoState, n: Seq<char>)
    requires
        is_plain(n),
        s.open,
    ensures
        deps::cargo_line(s, seq![' '] + (seq!['"'] + n + seq!['"']) + seq![',']).wants
            == s.wants.push(n),
        deps::cargo_line(s, seq![']']).open == false,
        deps::cargo_line(s, seq![']']).wants == s.wants,
{
    let q = seq!['"'] + n + seq!['"'];
    let t = q + seq![','];
    let l = seq![' '] + q + seq![','];
    let e = Seq::<char>::empty();
    assert(t[0] == '"' && t.last() == ',');
    texts::trimming_takes_white_ends(seq![' '], t, e);
    assert(seq![' '] + t + e =~= l);
    reveal_strlit("]");
    assert("]"@ =~= seq![']']);
    if text::starts_with(t, "]"@) {
        assert(t.subrange(0, 1)[0] == t[0]);
    }
    assert(q.last() == '"');
    texts::ends_come_off(q, ',');
    texts::plain_lacks(n, '"');
    assert(n.last() == n[n.len() - 1]);
    texts::quotes_come_off(n, '"');
    texts::trimmed_texts_stay(seq![']']);
    texts::texts_hold_themselves("]"@);
    assert("]"@.subrange(0, 1) =~= "]"@);
}

proof fn gradle_words()
    ensures
        manifests::GRADLE_WORDS@.len() == 4,
        manifests::GRADLE_WORDS@[0]@.len() > 0 && manifests::GRADLE_WORDS@[0]@[0] == 'i',
        manifests::GRADLE_WORDS@[1]@.len() > 0 && manifests::GRADLE_WORDS@[1]@[0] == 'a',
        manifests::GRADLE_WORDS@[2]@.len() > 0 && manifests::GRADLE_WORDS@[2]@[0] == 'c',
        manifests::GRADLE_WORDS@[3]@.len() > 0 && manifests::GRADLE_WORDS@[3]@[0] == 't',
        manifests::GRADLE_WORDS@[0]@ == "implementation"@,
        manifests::GRADLE_WORDS@[1]@ == "api"@,
        manifests::GRADLE_WORDS@[2]@ == "compile"@,
        manifests::GRADLE_WORDS@[3]@ == "testImplementation"@,
        is_plain("implementation"@) && is_plain("api"@) && is_plain("compile"@) && is_plain(
            "testImplementation"@,
        ),
{
    reveal_strlit("implementation");
    reveal_strlit("api");
    reveal_strlit("compile");
    reveal_strlit("testImplementation");
}

/// A dependency of a Gradle file is listed once, behind any of the words that
/// declare one, whichever quotes it stands in.
pub proof fn gradle_dependencies_are_listed(
    lines: Seq<Seq<char>>,
    w: int,
    quote: char,
    g: Seq<char>,
    a: Seq<char>,
    v: Seq<char>,
)
    requires
        0 <= w < 4,
        is_plain(g),
        is_plain(a),
        is_plain(v),
        quote == '\'' || quote == '"',
    ensures
        ({
            let q = seq![quote];
            let t = manifests::GRADLE_WORDS@[w]@ + seq![' '] + q + (g + seq![':'] + (a + seq![':']
                + v)) + q;
            manifests::gradle_deps(lines.push(t)) == manifests::gradle_deps(lines).push(
                entry(g + seq![':'] + a, v, "Maven"@, true, "build.gradle"@),
            )
        }),
{
    let q = seq![quote];
    let word = manifests::GRADLE_WORDS@[w]@;
    let t = word + seq![' '] + q + (g + seq![':'] + (a + seq![':'] + v)) + q;
    gradle_words();
    assert(lines.push(t).drop_last() =~= lines);
    assert(t[0] == word[0] && t.last() == quote);
    texts::trimmed_texts_stay(t);
    packages::gradle_coordinates_are_listed(word, quote, g, a, v);
    let x = entry(g + seq![':'] + a, v, "Maven"@, true, "build.gradle"@);
    let z = Seq::<DepView>::empty();
    let both = manifests::coordinate(t, '\'') + manifests::coordinate(t, '"');
    assert(both =~= seq![x]);
    assert(t.take(word.len() as int) =~= word);
    one_word(t, w);
    assert(manifests::gradle_line(t, 4) == both);
    let before = manifests::gradle_deps(lines);
    assert(before + seq![x] =~= before.push(x));
}

proof fn one_word(t: Seq<char>, w: int)
    requires
        0 <= w < 4,
        t.len() > 0,
        t.len() >= manifests::GRADLE_WORDS@[w]@.len(),
        t.take(manifests::GRADLE_WORDS@[w]@.len() as int) == manifests::GRADLE_WORDS@[w]@,
    ensures
        manifests::gradle_line(t, 4) == manifests::coordinate(t, '\'') + manifests::coordinate(t, '"'),
{
    gradle_words();
    let words = manifests::GRADLE_WORDS@;
    let both = manifests::coordinate(t, '\'') + manifests::coordinate(t, '"');
    assert(t[0] == t.take(words[w]@.len() as int)[0]);
    assert(t.subrange(0, words[w]@.len() as int) =~= words[w]@);
    assert forall|j: int| 0 <= j < 4 && j != w implies !text::starts_with(t, #[trigger] words[j]@) by {
        if text::starts_with(t, words[j]@) {
            assert(t.subrange(0, words[j]@.len() as int)[0] == t[0]);
        }
    }
    let z = Seq::<DepView>::empty();
    reveal_with_fuel(manifests::gradle_line, 5);
    assert(z + z =~= z);
    assert(z + both =~= both);
    assert(both + z =~= both);
}

/// A Maven file without a dependency lists none, and one with a single dependency
/// lists that one.
pub proof fn maven_files_are_read(block: Seq<char>, d: DepView)
    requires
        !text::contains(block, "<dependency>"@),
    ensures
        manifests::maven_deps(block).len() == 0,
        manifests::maven_dep(block) == Some(d) ==> manifests::maven_deps("<dependency>"@ + block)
            == seq![d],
{
    let p = "<dependency>"@;
    reveal_strlit("<dependency>");
    text::contains_iff_found(block, p);
    let e = Seq::<char>::empty();
    texts::parts_stand_between_marks(e, p, block);
    assert(e + p + block =~= p + block);
    assert(pieces::split_str(block, p) == seq![block]);
    let v = seq![e] + seq![block];
    assert(v =~= seq![e].push(block));
    packages::maven_blocks_are_read_in_order(seq![e], block, d);
    assert(manifests::maven_blocks(seq![e]) =~= Seq::<DepView>::empty());
    assert(Seq::<DepView>::empty().push(d) =~= seq![d]);
}

/// The frameworks of NuGet's lock are read one after another.
pub proof fn nuget_frameworks_are_read(
    e: Seq<(Seq<char>, JsonView)>,
    name: Seq<char>,
    f: Seq<(Seq<char>, JsonView)>,
    i: int,
)
    requires
        0 <= i < manifests::nuget_framework(f).len(),
    ensures
        ({
            let r = manifests::nuget_frameworks(e.push((name, JsonView::Obj(f))));
            let n = manifests::nuget_frameworks(e).len() as int;
            let x = manifests::nuget_framework(f)[i];
            &&& r.len() == n + manifests::nuget_framework(f).len()
            &&& r.take(n) == manifests::nuget_frameworks(e)
            &&& r[n + i].name == x.name && r[n + i].version == x.version && r[n + i].is_direct
                == x.is_direct
        }),
{
    let o = (name, JsonView::Obj(f));
    assert(e.push(o).drop_last() =~= e);
    let found = manifests::nuget_framework(f);
    packages::chains_keep_what_was_found(
        found,
        graph::needs_of(found, manifests::nuget_needs(f)),
        i,
    );
    let r = manifests::nuget_frameworks(e.push(o));
    let n = manifests::nuget_frameworks(e).len() as int;
    assert(r.take(n) =~= manifests::nuget_frameworks(e));
}

/// What a package asks for is found by its name, and by its version where that is
/// told.
pub proof fn wanted_packages_are_found(v: Seq<DepView>, k: int, n: Seq<char>, w: Seq<char>)
    requires
        is_plain(n),
        is_plain(w),
        0 <= k < v.len(),
        v[k].name == n,
    ensures
        (forall|j: int| 0 <= j < k ==> (#[trigger] v[j]).name != n) ==> graph::wanted(v, n) == Some(
            k,
        ),
        v[k].version == w && (forall|j: int|
            0 <= j < k ==> (#[trigger] v[j]).name != n || v[j].version != w) ==> graph::wanted(
            v,
            n + seq![' '] + w,
        ) == Some(k),
{
    packages::plain_is_trimmed(n);
    packages::plain_is_trimmed(w);
    texts::words_stand_between_blanks(n, ' ', w);
    texts::words_stand_between_blanks(w, ' ', n);
    assert(seq![n] + seq![w] =~= seq![n, w]);
    if forall|j: int| 0 <= j < k ==> (#[trigger] v[j]).name != n {
        package_found(v, n, None, k, 0);
    }
    if v[k].version == w && (forall|j: int|
        0 <= j < k ==> (#[trigger] v[j]).name != n || v[j].version != w) {
        package_found(v, n, Some(w), k, 0);
    }
}

proof fn package_found(v: Seq<DepView>, n: Seq<char>, w: Option<Seq<char>>, k: int, from: int)
    requires
        0 <= from <= k < v.len(),
        v[k].name == n,
        w is None || w == Some(v[k].version),
        forall|j: int|
            0 <= j < k ==> (#[trigger] v[j]).name != n || (w is Some && w != Some(v[j].version)),
    ensures
        graph::package_from(v, n, w, from) == Some(k),
    decreases k - from,
{
    if from < k {
        package_found(v, n, w, k, from + 1);
    }
}

/// The list of what a package of a Cargo lock depends on is opened by its own line.
pub proof fn cargo_dependencies_are_opened(s: deps::CargoState)
    requires
        !s.open,
    ensures
        ({
            let r = deps::cargo_line(s, "dependencies = ["@);
            r.open && r.wants == s.wants && r.name == s.name && r.version == s.version
        }),
{
    reveal_strlit("dependencies = [");
    let t = "dependencies = ["@;
    assert(t[0] == 'd' && t.last() == '[');
    texts::trimmed_texts_stay(t);
}

} // verus!
