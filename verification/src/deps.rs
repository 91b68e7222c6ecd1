//! The packages that the manifests and lock files of a project name.

use vstd::prelude::*;
use crate::graph;
use crate::json;
use crate::json::Json;
use crate::packages;
use crate::packages::Dep;
use crate::pieces;
use crate::text;

verus! {

broadcast use {
    vstd::seq::group_seq_axioms,
    vstd::string::group_string_axioms,
    text::views_push,
    text::views_empty,
    packages::group_deps,
};

// ---- small grammars ------------------------------------------------------------------

/// The text of the first element of that name, white space around it taken
/// off.
pub open spec fn element(s: Seq<char>, tag: Seq<char>) -> Option<Seq<char>> {
    let open = "<"@ + tag + ">"@;
    let close = "</"@ + tag + ">"@;
    match text::find(s, open) {
        Some(a) => {
            let rest = s.skip(a + open.len());
            match text::find(rest, close) {
                Some(b) => Some(pieces::trim(rest.take(b))),
                None => None,
            }
        },
        None => None,
    }
}

/// The text of the first element of that name.
pub fn xml_tag(s: &str, tag: &str) -> (r: Option<String>)
    ensures
        text::opt_view(r) == element(s@, tag@),
{
    let mut open = "<".to_owned();
    open.push_str(tag);
    open.push_str(">");
    let mut close = "</".to_owned();
    close.push_str(tag);
    close.push_str(">");
    match text::str_find(s, &open) {
        Some(a) => {
            let n = text::char_count(&open);
            let m = text::char_count(s);
            let rest = pieces::str_skip(s, a + n);
            match text::str_find(&rest, &close) {
                Some(b) => {
                    let inner = pieces::str_take(&rest, b);
                    Some(pieces::str_trim(&inner))
                },
                None => None,
            }
        },
        None => None,
    }
}

/// The value of the first attribute of that name.
pub open spec fn attribute(s: Seq<char>, name: Seq<char>) -> Option<Seq<char>> {
    let open = name + "=\""@;
    match text::find(s, open) {
        Some(a) => {
            let rest = s.skip(a + open.len());
            match pieces::index_of(rest, '"') {
                Some(b) => Some(rest.take(b)),
                None => None,
            }
        },
        None => None,
    }
}

/// The value of the first attribute of that name.
pub fn xml_attr(s: &str, name: &str) -> (r: Option<String>)
    ensures
        text::opt_view(r) == attribute(s@, name@),
{
    let mut open = name.to_owned();
    open.push_str("=\"");
    match text::str_find(s, &open) {
        Some(a) => {
            let n = text::char_count(&open);
            let m = text::char_count(s);
            let rest = pieces::str_skip(s, a + n);
            let v = text::chars_of(&rest);
            match pieces::chars_index_from(&v, '"', 0) {
                Some(b) => Some(pieces::str_take(&rest, b)),
                None => None,
            }
        },
        None => None,
    }
}

/// The value that a line gives to a key, quotes taken off.
pub open spec fn setting(line: Seq<char>, key: Seq<char>) -> Option<Seq<char>> {
    let open = key + " = "@;
    let t = pieces::trim(line);
    if text::starts_with(t, open) || t == key {
        Some(pieces::trim_char(pieces::trim(pieces::trim_start_str(t, open)), '"'))
    } else {
        None
    }
}

/// The value that a line gives to a key.
pub fn toml_str_field(line: &str, key: &str) -> (r: Option<String>)
    ensures
        text::opt_view(r) == setting(line@, key@),
{
    let mut open = key.to_owned();
    open.push_str(" = ");
    let t = pieces::str_trim(line);
    if text::str_starts_with(&t, &open) || text::str_eq(&t, key) {
        let a = pieces::str_trim_start_str(&t, &open);
        let b = pieces::str_trim(&a);
        Some(pieces::str_trim_char(&b, '"'))
    } else {
        None
    }
}

// ---- Python ----------------------------------------------------------------------------

/// The signs between a name and a version, the longest first.
pub const OPS: [&'static str; 8] = ["===", "~=", "==", ">=", "<=", "!=", ">", "<"];

/// A name and its version: split at the first sign, from `from` on, that gives
/// both; of several versions the first.
pub open spec fn pinned_from(spec: Seq<char>, from: int) -> Option<(Seq<char>, Seq<char>)>
    decreases 8 - from,
{
    if from < 0 || from >= 8 {
        None
    } else {
        let op = OPS@[from]@;
        match text::find(spec, op) {
            Some(i) => {
                let name = pieces::trim(spec.take(i));
                let version = pieces::trim(
                    pieces::first_piece(pieces::trim(spec.skip(i + op.len())), ','),
                );
                if name.len() > 0 && version.len() > 0 {
                    Some((name, version))
                } else {
                    pinned_from(spec, from + 1)
                }
            },
            None => pinned_from(spec, from + 1),
        }
    }
}

pub open spec fn pair_view(p: Option<(String, String)>) -> Option<(Seq<char>, Seq<char>)> {
    match p {
        Some(q) => Some((q.0@, q.1@)),
        None => None,
    }
}

/// A name and its version.
pub fn split_pep440(spec: &str) -> (r: Option<(String, String)>)
    ensures
        pair_view(r) == pinned_from(spec@, 0),
{
    let ops = OPS;
    let mut k: usize = 0;
    while k < 8
        invariant
            k <= 8,
            ops == OPS,
            pinned_from(spec@, 0) == pinned_from(spec@, k as int),
        decreases 8 - k,
    {
        match text::str_find(spec, ops[k]) {
            Some(i) => {
                let n = text::char_count(ops[k]);
                let m = text::char_count(spec);
                let head = pieces::str_take(spec, i);
                let tail = pieces::str_skip(spec, i + n);
                let name = pieces::str_trim(&head);
                let t = pieces::str_trim(&tail);
                let first = pieces::str_first_piece(&t, ',');
                let version = pieces::str_trim(&first);
                if text::char_count(&name) > 0 && text::char_count(&version) > 0 {
                    return Some((name, version));
                }
            },
            None => {},
        }
        k += 1;
    }
    None
}

/// A requirement without the extras in brackets behind its name.
pub open spec fn without_extras(s: Seq<char>) -> Seq<char> {
    match pieces::index_of(s, '[') {
        Some(a) => match pieces::index_from(s, ']', a) {
            Some(b) => s.take(a) + s.skip(b + 1),
            None => s.take(a),
        },
        None => s,
    }
}

fn strip_extras(s: &str) -> (r: String)
    ensures
        r@ == without_extras(s@),
{
    let v = text::chars_of(s);
    match pieces::chars_index_from(&v, '[', 0) {
        Some(a) => {
            let mut out = pieces::str_take(s, a);
            match pieces::chars_index_from(&v, ']', a) {
                Some(b) => {
                    let n: usize = v.len();
                    let tail = pieces::str_skip(s, b + 1);
                    out.push_str(&tail);
                    out
                },
                None => out,
            }
        },
        None => s.to_owned(),
    }
}

/// What a line of a requirements file names: comments and options name
/// nothing, extras are left out.
pub open spec fn requirement(line: Seq<char>) -> Option<(Seq<char>, Seq<char>)> {
    let t = pieces::trim(pieces::first_piece(line, '#'));
    if t.len() == 0 || t[0] == '-' {
        None
    } else {
        pinned_from(without_extras(t), 0)
    }
}

pub(crate) fn read_requirement(line: &str) -> (r: Option<(String, String)>)
    ensures
        pair_view(r) == requirement(line@),
{
    let a = pieces::str_first_piece(line, '#');
    let t = pieces::str_trim(&a);
    let v = text::chars_of(&t);
    if v.len() == 0 || v[0] == '-' {
        return None;
    }
    let s = strip_extras(&t);
    split_pep440(&s)
}

/// The packages of the lines of a requirements file.
pub open spec fn requirement_deps(lines: Seq<Seq<char>>, file: Seq<char>) -> Seq<packages::DepView>
    decreases lines.len(),
{
    if lines.len() == 0 {
        Seq::empty()
    } else {
        let before = requirement_deps(lines.drop_last(), file);
        match requirement(lines.last()) {
            Some(p) => before.push(packages::named(p.0, p.1, "PyPI"@, true, file)),
            None => before,
        }
    }
}

/// The packages of a requirements file.
pub fn parse_requirements(content: &str, file: &str) -> (r: Vec<Dep>)
    ensures
        packages::deps(r@) == requirement_deps(pieces::lines(content@), file@),
{
    let lines = pieces::str_lines(content);
    let ghost all = text::views(lines@);
    let mut out: Vec<Dep> = Vec::new();
    let mut i: usize = 0;
    while i < lines.len()
        invariant
            i <= lines@.len(),
            all == text::views(lines@),
            packages::deps(out@) == requirement_deps(all.take(i as int), file@),
        decreases lines@.len() - i,
    {
        assert(all.take(i + 1).drop_last() =~= all.take(i as int));
        assert(all.take(i + 1).last() == lines@[i as int]@);
        match read_requirement(&lines[i]) {
            Some(p) => {
                out.push(Dep::named(p.0, p.1, "PyPI", true, file));
            },
            None => {},
        }
        i += 1;
    }
    assert(all.take(all.len() as int) =~= all);
    out
}

/// A file by its name and what is in it.
pub open spec fn file_views(v: Seq<(String, String)>) -> Seq<(Seq<char>, Seq<char>)> {
    v.map_values(|f: (String, String)| (f.0@, f.1@))
}

/// The packages of all requirements files, in order.
pub open spec fn all_requirements(files: Seq<(Seq<char>, Seq<char>)>) -> Seq<packages::DepView>
    decreases files.len(),
{
    if files.len() == 0 {
        Seq::empty()
    } else {
        all_requirements(files.drop_last()) + requirement_deps(
            pieces::lines(files.last().1),
            files.last().0,
        )
    }
}

pub(crate) fn parse_all_requirements(files: &Vec<(String, String)>) -> (r: Vec<Dep>)
    ensures
        packages::deps(r@) == all_requirements(file_views(files@)),
{
    let ghost all = file_views(files@);
    let mut out: Vec<Dep> = Vec::new();
    let mut i: usize = 0;
    while i < files.len()
        invariant
            i <= files@.len(),
            all == file_views(files@),
            packages::deps(out@) == all_requirements(all.take(i as int)),
        decreases files@.len() - i,
    {
        assert(all.take(i + 1).drop_last() =~= all.take(i as int));
        assert(all.take(i + 1).last() == (files@[i as int].0@, files@[i as int].1@));
        let more = parse_requirements(&files[i].1, &files[i].0);
        packages::append(&mut out, more);
        i += 1;
    }
    assert(all.take(all.len() as int) =~= all);
    out
}

/// Whether a file of that name is a requirements file.
pub open spec fn is_requirements_name(name: Seq<char>) -> bool {
    text::starts_with(name, "requirements"@) && text::ends_with(name, ".txt"@)
}

/// Whether a file of that name is a requirements file.
pub fn is_requirements_file(name: &str) -> (r: bool)
    ensures
        r == is_requirements_name(name@),
{
    text::str_starts_with(name, "requirements") && text::str_ends_with(name, ".txt")
}

// ---- lists of packages in TOML -------------------------------------------------------------

/// Reading a list of packages: the one that is being read, and those that are
/// complete.
pub struct Stanza {
    pub begun: bool,
    pub name: Seq<char>,
    pub version: Seq<char>,
    pub found: Seq<packages::DepView>,
}

/// A package is complete when it has a name and a version.
pub open spec fn closed(
    s: Stanza,
    ecosystem: Seq<char>,
    manifest: Seq<char>,
    is_direct: bool,
) -> Seq<packages::DepView> {
    if s.name.len() > 0 && s.version.len() > 0 {
        s.found.push(packages::named(s.name, s.version, ecosystem, is_direct, manifest))
    } else {
        s.found
    }
}

/// Fields of the package that is being read.
pub open spec fn stanza_field(s: Stanza, line: Seq<char>) -> Stanza {
    let t = match setting(line, "name"@) {
        Some(v) => Stanza { name: v, ..s },
        None => s,
    };
    match setting(line, "version"@) {
        Some(v) => Stanza { version: v, ..t },
        None => t,
    }
}

/// Poetry: fields before the first package do not count.
pub open spec fn poetry_read(lines: Seq<Seq<char>>) -> Stanza
    decreases lines.len(),
{
    if lines.len() == 0 {
        Stanza { begun: false, name: Seq::empty(), version: Seq::empty(), found: Seq::empty() }
    } else {
        let s = poetry_read(lines.drop_last());
        if lines.last() == "[[package]]"@ {
            Stanza {
                begun: true,
                name: Seq::empty(),
                version: Seq::empty(),
                found: closed(s, "PyPI"@, "poetry.lock"@, false),
            }
        } else if s.begun {
            stanza_field(s, lines.last())
        } else {
            s
        }
    }
}

/// The packages of a Poetry lock file.
pub open spec fn poetry_deps(content: Seq<char>) -> Seq<packages::DepView> {
    closed(poetry_read(pieces::lines(content)), "PyPI"@, "poetry.lock"@, false)
}

pub(crate) fn push_complete(
    out: &mut Vec<Dep>,
    name: &str,
    version: &str,
    ecosystem: &str,
    manifest: &str,
    is_direct: bool,
)
    ensures
        packages::deps(final(out)@) == if name@.len() > 0 && version@.len() > 0 {
            packages::deps(old(out)@).push(
                packages::named(name@, version@, ecosystem@, is_direct, manifest@),
            )
        } else {
            packages::deps(old(out)@)
        },
{
    if text::char_count(name) > 0 && text::char_count(version) > 0 {
        out.push(
            Dep::named(name.to_owned(), version.to_owned(), ecosystem, is_direct, manifest),
        );
    }
}

/// The packages of a Poetry lock file.
pub fn parse_poetry(content: &str) -> (r: Vec<Dep>)
    ensures
        packages::deps(r@) == poetry_deps(content@),
{
    let lines = pieces::str_lines(content);
    let ghost all = text::views(lines@);
    let mut begun = false;
    let mut name = String::new();
    let mut version = String::new();
    let mut out: Vec<Dep> = Vec::new();
    let mut i: usize = 0;
    while i < lines.len()
        invariant
            i <= lines@.len(),
            all == text::views(lines@),
            (Stanza { begun, name: name@, version: version@, found: packages::deps(out@) })
                == poetry_read(all.take(i as int)),
        decreases lines@.len() - i,
    {
        assert(all.take(i + 1).drop_last() =~= all.take(i as int));
        assert(all.take(i + 1).last() == lines@[i as int]@);
        if text::str_eq(&lines[i], "[[package]]") {
            push_complete(&mut out, &name, &version, "PyPI", "poetry.lock", false);
            begun = true;
            name = String::new();
            version = String::new();
        } else if begun {
            match toml_str_field(&lines[i], "name") {
                Some(v) => {
                    name = v;
                },
                None => {},
            }
            match toml_str_field(&lines[i], "version") {
                Some(v) => {
                    version = v;
                },
                None => {},
            }
        }
        i += 1;
    }
    assert(all.take(all.len() as int) =~= all);
    push_complete(&mut out, &name, &version, "PyPI", "poetry.lock", false);
    out
}

// ---- Pipfile.lock ----------------------------------------------------------------------------

/// The packages among the first `n` entries of a section.
pub open spec fn pipfile_section(e: Seq<(Seq<char>, json::JsonView)>) -> Seq<packages::DepView>
    decreases e.len(),
{
    if e.len() == 0 {
        Seq::empty()
    } else {
        let before = pipfile_section(e.drop_last());
        match json::as_text(json::field(e.last().1, "version"@)) {
            Some(v) => before.push(
                packages::named(
                    e.last().0,
                    pieces::trim_start_str(v, "=="@),
                    "PyPI"@,
                    true,
                    "Pipfile.lock"@,
                ),
            ),
            None => before,
        }
    }
}

/// The packages of a Pipfile lock file that was read.
pub open spec fn pipfile_of(v: json::JsonView) -> Seq<packages::DepView> {
    pipfile_section(json::entries(json::field(v, "default"@))) + pipfile_section(
        json::entries(json::field(v, "develop"@)),
    )
}

/// The packages of a Pipfile lock file; none where it is no JSON document.
pub open spec fn pipfile_deps(content: Seq<char>) -> Seq<packages::DepView> {
    match json::parsed(content) {
        Some(v) => pipfile_of(v),
        None => Seq::empty(),
    }
}

fn read_pipfile_section(o: Option<&Json>) -> (r: Vec<Dep>)
    ensures
        packages::deps(r@) == pipfile_section(json::entries(json::opt_value(o))),
{
    let mut out: Vec<Dep> = Vec::new();
    match json::opt_entries(o) {
        None => {},
        Some(v) => {
            let ghost all = json::fields(v@);
            proof {
                json::fields_index(v@);
            }
            let mut i: usize = 0;
            while i < v.len()
                invariant
                    i <= v@.len(),
                    all == json::fields(v@),
                    all.len() == v@.len(),
                    forall|k: int| 0 <= k < v@.len() ==> (#[trigger] all[k]) == (v@[k].0@, json::value(v@[k].1)),
                    packages::deps(out@) == pipfile_section(all.take(i as int)),
                decreases v@.len() - i,
            {
                assert(all.take(i + 1).drop_last() =~= all.take(i as int));
                assert(all.take(i + 1).last() == all[i as int]);
                match json::opt_text(v[i].1.get("version")) {
                    Some(ver) => {
                        let t = pieces::str_trim_start_str(&ver, "==");
                        out.push(Dep::named(v[i].0.clone(), t, "PyPI", true, "Pipfile.lock"));
                    },
                    None => {},
                }
                i += 1;
            }
            assert(all.take(all.len() as int) =~= all);
        },
    }
    out
}

/// The packages of a Pipfile lock file that was read.
pub fn pipfile_packages(v: &Json) -> (r: Vec<Dep>)
    ensures
        packages::deps(r@) == pipfile_of(v@),
{
    let mut out = read_pipfile_section(v.get("default"));
    let more = read_pipfile_section(v.get("develop"));
    packages::append(&mut out, more);
    out
}

/// The packages of a Pipfile lock file.
pub fn parse_pipfile(content: &str) -> (r: Vec<Dep>)
    ensures
        packages::deps(r@) == pipfile_deps(content@),
{
    match json::parse(content) {
        Some(v) => pipfile_packages(&v),
        None => Vec::new(),
    }
}

// ---- npm and yarn ------------------------------------------------------------------------------

/// An object has that key.
pub open spec fn has_key(e: Seq<(Seq<char>, json::JsonView)>, key: Seq<char>) -> bool {
    exists|i: int| 0 <= i < e.len() && (#[trigger] e[i]).0 == key
}

fn knows_key(o: Option<&Json>, key: &str) -> (r: bool)
    ensures
        r == has_key(json::entries(json::opt_value(o)), key@),
{
    match json::opt_entries(o) {
        None => false,
        Some(v) => {
            let ghost all = json::fields(v@);
            proof {
                json::fields_index(v@);
            }
            let mut i: usize = 0;
            while i < v.len()
                invariant
                    i <= v@.len(),
                    all == json::fields(v@),
                    all.len() == v@.len(),
                    json::entries(json::opt_value(o)) == all,
                    forall|k: int| 0 <= k < v@.len() ==> (#[trigger] all[k]) == (v@[k].0@, json::value(v@[k].1)),
                    forall|k: int| 0 <= k < i ==> (#[trigger] all[k]).0 != key@,
                decreases v@.len() - i,
            {
                assert(all[i as int].0 == v@[i as int].0@);
                if text::str_eq(&v[i].0, key) {
                    return true;
                }
                i += 1;
            }
            false
        },
    }
}

/// The direct dependencies that the root package of a lock file lists.
pub open spec fn npm_direct(v: json::JsonView) -> Seq<(Seq<char>, json::JsonView)> {
    json::entries(
        json::opt_field(json::opt_field(json::field(v, "packages"@), ""@), "dependencies"@),
    )
}

/// The packages among the entries of a lock file.
pub open spec fn npm_entries(
    e: Seq<(Seq<char>, json::JsonView)>,
    direct: Seq<(Seq<char>, json::JsonView)>,
) -> Seq<packages::DepView>
    decreases e.len(),
{
    if e.len() == 0 {
        Seq::empty()
    } else {
        let before = npm_entries(e.drop_last(), direct);
        let name = pieces::trim_start_str(e.last().0, "node_modules/"@);
        match json::as_text(json::field(e.last().1, "version"@)) {
            Some(v) if e.last().0.len() > 0 => before.push(
                packages::named(name, v, "npm"@, has_key(direct, name), "package-lock.json"@),
            ),
            _ => before,
        }
    }
}

/// The keys of an object.
pub open spec fn keys_of(e: Seq<(Seq<char>, json::JsonView)>) -> Seq<Seq<char>> {
    e.map_values(|f: (Seq<char>, json::JsonView)| f.0)
}

/// What each of the packages among the entries of a lock file depends on.
pub open spec fn npm_needs(e: Seq<(Seq<char>, json::JsonView)>) -> Seq<Seq<Seq<char>>>
    decreases e.len(),
{
    if e.len() == 0 {
        Seq::empty()
    } else {
        let before = npm_needs(e.drop_last());
        match json::as_text(json::field(e.last().1, "version"@)) {
            Some(_) if e.last().0.len() > 0 => before.push(
                keys_of(json::entries(json::field(e.last().1, "dependencies"@))),
            ),
            _ => before,
        }
    }
}

/// The packages of an npm lock file that was read, with the chains that lead to
/// them.
pub open spec fn npm_of(v: json::JsonView) -> Seq<packages::DepView> {
    let e = json::entries(json::field(v, "packages"@));
    let found = npm_entries(e, npm_direct(v));
    graph::chained(found, graph::found_in_folders(found, npm_needs(e)))
}

pub(crate) fn object_keys(o: Option<&Json>) -> (r: Vec<String>)
    ensures
        text::views(r@) == keys_of(json::entries(json::opt_value(o))),
{
    let mut out: Vec<String> = Vec::new();
    match json::opt_entries(o) {
        None => {
            assert(keys_of(json::entries(json::opt_value(o))) =~= Seq::empty());
        },
        Some(v) => {
            let ghost all = json::fields(v@);
            proof {
                json::fields_index(v@);
            }
            let ghost want = keys_of(all);
            let mut i: usize = 0;
            assert(want.take(0) =~= Seq::empty());
            while i < v.len()
                invariant
                    i <= v@.len(),
                    all == json::fields(v@),
                    all.len() == v@.len(),
                    forall|k: int|
                        0 <= k < v@.len() ==> (#[trigger] all[k]) == (v@[k].0@, json::value(v@[k].1)),
                    want == keys_of(all),
                    text::views(out@) == want.take(i as int),
                decreases v@.len() - i,
            {
                assert(all[i as int].0 == v@[i as int].0@);
                out.push(v[i].0.clone());
                assert(want.take(i + 1) =~= want.take(i as int).push(want[i as int]));
                i += 1;
            }
            assert(want.take(want.len() as int) =~= want);
        },
    }
    out
}

/// The packages of an npm lock file; none where it is no JSON document.
pub open spec fn npm_deps(content: Seq<char>) -> Seq<packages::DepView> {
    match json::parsed(content) {
        Some(v) => npm_of(v),
        None => Seq::empty(),
    }
}

/// The packages of an npm lock file that was read, with the chains that lead to
/// them.
pub fn package_lock_packages(v: &Json) -> (r: Vec<Dep>)
    ensures
        packages::deps(r@) == npm_of(v@),
{
    let mut out: Vec<Dep> = Vec::new();
    let mut lists: Vec<Vec<String>> = Vec::new();
    assert(graph::text_lists(lists@) =~= Seq::empty());
    let direct = json::opt_get(json::opt_get(v.get("packages"), ""), "dependencies");
    match json::opt_entries(v.get("packages")) {
        None => {},
        Some(e) => {
            let ghost all = json::fields(e@);
            proof {
                json::fields_index(e@);
            }
            let mut i: usize = 0;
            while i < e.len()
                invariant
                    i <= e@.len(),
                    all == json::fields(e@),
                    all.len() == e@.len(),
                    json::entries(json::opt_value(direct)) == npm_direct(v@),
                    forall|k: int|
                        0 <= k < e@.len() ==> (#[trigger] all[k]) == (
                            e@[k].0@,
                            json::value(e@[k].1),
                        ),
                    packages::deps(out@) == npm_entries(all.take(i as int), npm_direct(v@)),
                    graph::text_lists(lists@) == npm_needs(all.take(i as int)),
                    lists@.len() == out@.len(),
                decreases e@.len() - i,
            {
                assert(all.take(i + 1).drop_last() =~= all.take(i as int));
                assert(all.take(i + 1).last() == all[i as int]);
                if text::char_count(&e[i].0) > 0 {
                    let name = pieces::str_trim_start_str(&e[i].0, "node_modules/");
                    match json::opt_text(e[i].1.get("version")) {
                        Some(ver) => {
                            let is_direct = knows_key(direct, &name);
                            out.push(
                                Dep::named(name, ver, "npm", is_direct, "package-lock.json"),
                            );
                            let keys = object_keys(e[i].1.get("dependencies"));
                            proof {
                                graph::text_lists_push(lists@, keys);
                            }
                            lists.push(keys);
                        },
                        None => {},
                    }
                }
                i += 1;
            }
            assert(all.take(all.len() as int) =~= all);
        },
    }
    graph::chain_by_folders(out, &lists)
}

/// The packages of an npm lock file.
pub fn parse_package_lock(content: &str) -> (r: Vec<Dep>)
    ensures
        packages::deps(r@) == npm_deps(content@),
{
    match json::parse(content) {
        Some(v) => package_lock_packages(&v),
        None => Vec::new(),
    }
}

/// Reading a yarn lock file: the package that is being read, and those that
/// are complete.
pub struct YarnState {
    pub name: Seq<char>,
    pub found: Seq<packages::DepView>,
}

/// A line that begins a package.
pub open spec fn is_yarn_head(line: Seq<char>) -> bool {
    !text::starts_with(line, " "@) && text::ends_with(line, ":"@)
}

/// The name in a line that begins a package.
pub open spec fn yarn_name(line: Seq<char>) -> Seq<char> {
    pieces::trim_char(pieces::first_piece(pieces::trim_end_char(line, ':'), '@'), '"')
}

/// The version in a line.
pub open spec fn yarn_version(line: Seq<char>) -> Seq<char> {
    pieces::trim_char(
        pieces::trim(pieces::trim_start_str(pieces::trim(line), "version"@)),
        '"',
    )
}

pub open spec fn yarn_read(lines: Seq<Seq<char>>) -> YarnState
    decreases lines.len(),
{
    if lines.len() == 0 {
        YarnState { name: Seq::empty(), found: Seq::empty() }
    } else {
        let s = yarn_read(lines.drop_last());
        let line = lines.last();
        if line.len() == 0 || text::starts_with(line, "#"@) {
            YarnState { name: Seq::empty(), ..s }
        } else if is_yarn_head(line) {
            YarnState { name: yarn_name(line), ..s }
        } else if text::starts_with(pieces::trim(line), "version"@) && s.name.len() > 0
            && yarn_version(line).len() > 0 {
            YarnState {
                name: Seq::empty(),
                found: s.found.push(
                    packages::named(s.name, yarn_version(line), "npm"@, false, "yarn.lock"@),
                ),
            }
        } else {
            s
        }
    }
}

/// The packages of a yarn lock file.
pub fn parse_yarn(content: &str) -> (r: Vec<Dep>)
    ensures
        packages::deps(r@) == yarn_read(pieces::lines(content@)).found,
{
    let lines = pieces::str_lines(content);
    let ghost all = text::views(lines@);
    let mut name = String::new();
    let mut out: Vec<Dep> = Vec::new();
    let mut i: usize = 0;
    while i < lines.len()
        invariant
            i <= lines@.len(),
            all == text::views(lines@),
            (YarnState { name: name@, found: packages::deps(out@) }) == yarn_read(
                all.take(i as int),
            ),
        decreases lines@.len() - i,
    {
        assert(all.take(i + 1).drop_last() =~= all.take(i as int));
        assert(all.take(i + 1).last() == lines@[i as int]@);
        let line = &lines[i];
        let t = pieces::str_trim(line);
        if text::char_count(line) == 0 || text::str_starts_with(line, "#") {
            name = String::new();
        } else if !text::str_starts_with(line, " ") && text::str_ends_with(line, ":") {
            let a = pieces::str_trim_end_char(line, ':');
            let b = pieces::str_first_piece(&a, '@');
            name = pieces::str_trim_char(&b, '"');
        } else if text::str_starts_with(&t, "version") && text::char_count(&name) > 0 {
            let a = pieces::str_trim_start_str(&t, "version");
            let b = pieces::str_trim(&a);
            let version = pieces::str_trim_char(&b, '"');
            if text::char_count(&version) > 0 {
                out.push(Dep::named(name, version, "npm", false, "yarn.lock"));
                name = String::new();
            }
        }
        i += 1;
    }
    assert(all.take(all.len() as int) =~= all);
    out
}

// ---- Go ------------------------------------------------------------------------------------------

/// Reading a module file: whether a list of requirements is open.
pub struct GoState {
    pub open: bool,
    pub found: Seq<packages::DepView>,
}

/// The words of a requirement: two at least, and no comment.
pub open spec fn go_required(
    found: Seq<packages::DepView>,
    words: Seq<Seq<char>>,
) -> Seq<packages::DepView> {
    if words.len() >= 2 && !text::starts_with(words[0], "//"@) {
        found.push(
            packages::named(
                words[0],
                pieces::trim_start_char(words[1], 'v'),
                "Go"@,
                true,
                "go.mod"@,
            ),
        )
    } else {
        found
    }
}

pub open spec fn gomod_read(lines: Seq<Seq<char>>) -> GoState
    decreases lines.len(),
{
    if lines.len() == 0 {
        GoState { open: false, found: Seq::empty() }
    } else {
        let s = gomod_read(lines.drop_last());
        let t = pieces::trim(lines.last());
        if t == "require ("@ {
            GoState { open: true, ..s }
        } else if t == ")"@ {
            GoState { open: false, ..s }
        } else if s.open {
            GoState { found: go_required(s.found, pieces::words(t)), ..s }
        } else if text::starts_with(t, "require "@) {
            let w = pieces::words(t);
            GoState {
                found: go_required(
                    s.found,
                    if w.len() > 0 {
                        w.skip(1)
                    } else {
                        w
                    },
                ),
                ..s
            }
        } else {
            s
        }
    }
}

/// A package of that name is in the list.
pub open spec fn has_name(v: Seq<packages::DepView>, name: Seq<char>) -> bool {
    exists|i: int| 0 <= i < v.len() && (#[trigger] v[i]).name == name
}

/// The packages of the sums of a project, after those in `found`: a module
/// whose name is there already counts as direct.
pub open spec fn gosum_read(
    found: Seq<packages::DepView>,
    lines: Seq<Seq<char>>,
) -> Seq<packages::DepView>
    decreases lines.len(),
{
    if lines.len() == 0 {
        found
    } else {
        let s = gosum_read(found, lines.drop_last());
        let w = pieces::words(lines.last());
        if w.len() >= 2 && !text::contains(w[1], "/go.mod"@) {
            s.push(
                packages::named(
                    w[0],
                    pieces::trim_start_char(pieces::first_piece(w[1], '/'), 'v'),
                    "Go"@,
                    has_name(s, w[0]),
                    "go.sum"@,
                ),
            )
        } else {
            s
        }
    }
}

fn push_go_required(out: &mut Vec<Dep>, words: &Vec<String>, from: usize)
    requires
        from <= words@.len(),
    ensures
        packages::deps(final(out)@) == go_required(
            packages::deps(old(out)@),
            text::views(words@).skip(from as int),
        ),
{
    let n: usize = words.len();
    if n - from >= 2 {
        assert(text::views(words@).skip(from as int)[0] == words@[from as int]@);
        assert(text::views(words@).skip(from as int)[1] == words@[from + 1]@);
        if !text::str_starts_with(&words[from], "//") {
            let v = pieces::str_trim_start_char(&words[from + 1], 'v');
            out.push(Dep::named(words[from].clone(), v, "Go", true, "go.mod"));
        }
    }
}

/// The packages of a module file.
pub fn parse_gomod(content: &str) -> (r: Vec<Dep>)
    ensures
        packages::deps(r@) == gomod_read(pieces::lines(content@)).found,
{
    let lines = pieces::str_lines(content);
    let ghost all = text::views(lines@);
    let mut open = false;
    let mut out: Vec<Dep> = Vec::new();
    let mut i: usize = 0;
    while i < lines.len()
        invariant
            i <= lines@.len(),
            all == text::views(lines@),
            (GoState { open, found: packages::deps(out@) }) == gomod_read(all.take(i as int)),
        decreases lines@.len() - i,
    {
        assert(all.take(i + 1).drop_last() =~= all.take(i as int));
        assert(all.take(i + 1).last() == lines@[i as int]@);
        let t = pieces::str_trim(&lines[i]);
        if text::str_eq(&t, "require (") {
            open = true;
        } else if text::str_eq(&t, ")") {
            open = false;
        } else if open {
            let words = pieces::str_words(&t);
            push_go_required(&mut out, &words, 0);
            assert(text::views(words@).skip(0) =~= text::views(words@));
        } else if text::str_starts_with(&t, "require ") {
            let words = pieces::str_words(&t);
            if words.len() > 0 {
                push_go_required(&mut out, &words, 1);
            }
        }
        i += 1;
    }
    assert(all.take(all.len() as int) =~= all);
    out
}

fn knows_name(v: &Vec<Dep>, name: &str) -> (r: bool)
    ensures
        r == has_name(packages::deps(v@), name@),
{
    let mut i: usize = 0;
    while i < v.len()
        invariant
            i <= v@.len(),
            forall|k: int| 0 <= k < i ==> (#[trigger] packages::deps(v@)[k]).name != name@,
        decreases v@.len() - i,
    {
        assert(packages::deps(v@)[i as int] == v@[i as int]@);
        if text::str_eq(&v[i].name, name) {
            return true;
        }
        i += 1;
    }
    false
}

/// Adds the packages of the sums of a project.
pub fn parse_gosum(out: &mut Vec<Dep>, content: &str)
    ensures
        packages::deps(final(out)@) == gosum_read(
            packages::deps(old(out)@),
            pieces::lines(content@),
        ),
{
    let lines = pieces::str_lines(content);
    let ghost all = text::views(lines@);
    let ghost start = packages::deps(out@);
    let mut i: usize = 0;
    while i < lines.len()
        invariant
            i <= lines@.len(),
            all == text::views(lines@),
            packages::deps(out@) == gosum_read(start, all.take(i as int)),
        decreases lines@.len() - i,
    {
        assert(all.take(i + 1).drop_last() =~= all.take(i as int));
        assert(all.take(i + 1).last() == lines@[i as int]@);
        let w = pieces::str_words(&lines[i]);
        if w.len() >= 2 {
            assert(text::views(w@)[0] == w@[0]@);
            assert(text::views(w@)[1] == w@[1]@);
            if !text::str_contains(&w[1], "/go.mod") {
                let f = pieces::str_first_piece(&w[1], '/');
                let v = pieces::str_trim_start_char(&f, 'v');
                let direct = knows_name(out, &w[0]);
                out.push(Dep::named(w[0].clone(), v, "Go", direct, "go.sum"));
            }
        }
        i += 1;
    }
    assert(all.take(all.len() as int) =~= all);
}

// ---- Rust ------------------------------------------------------------------------------------------

/// The keys of the settings of a manifest; section headers have none.
pub open spec fn cargo_keys(lines: Seq<Seq<char>>) -> Seq<Seq<char>>
    decreases lines.len(),
{
    if lines.len() == 0 {
        Seq::empty()
    } else {
        let before = cargo_keys(lines.drop_last());
        let t = pieces::trim(lines.last());
        if text::starts_with(t, "["@) {
            before
        } else {
            before.push(pieces::trim_char(pieces::trim(pieces::first_piece(t, '=')), '"'))
        }
    }
}

/// Reading a Cargo lock file: the package that is being read, whether its list of
/// dependencies is open and what stands in it; and the packages that are
/// complete, with their lists.
pub struct CargoState {
    pub name: Seq<char>,
    pub version: Seq<char>,
    pub open: bool,
    pub wants: Seq<Seq<char>>,
    pub found: Seq<packages::DepView>,
    pub lists: Seq<Seq<Seq<char>>>,
}

/// The state with the package that is being read closed; `direct` are the keys of
/// the manifest.
pub open spec fn cargo_closed(s: CargoState, direct: Seq<Seq<char>>) -> CargoState {
    let none = CargoState {
        name: Seq::empty(),
        version: Seq::empty(),
        open: false,
        wants: Seq::empty(),
        ..s
    };
    if s.name.len() > 0 && s.version.len() > 0 {
        CargoState {
            found: s.found.push(
                packages::named(
                    s.name,
                    s.version,
                    "crates.io"@,
                    direct.contains(s.name),
                    "Cargo.lock"@,
                ),
            ),
            lists: s.lists.push(s.wants),
            ..none
        }
    } else {
        none
    }
}

/// The state after a line within a package.
pub open spec fn cargo_line(s: CargoState, line: Seq<char>) -> CargoState {
    let t = pieces::trim(line);
    if s.open {
        if text::starts_with(t, "]"@) {
            CargoState { open: false, ..s }
        } else {
            CargoState {
                wants: s.wants.push(pieces::trim_char(pieces::trim_end_char(t, ','), '"')),
                ..s
            }
        }
    } else if t == "dependencies = ["@ {
        CargoState { open: true, ..s }
    } else {
        let named = match setting(line, "name"@) {
            Some(v) => CargoState { name: v, ..s },
            None => s,
        };
        match setting(line, "version"@) {
            Some(v) => CargoState { version: v, ..named },
            None => named,
        }
    }
}

pub open spec fn cargo_read(lines: Seq<Seq<char>>, direct: Seq<Seq<char>>) -> CargoState
    decreases lines.len(),
{
    if lines.len() == 0 {
        CargoState {
            name: Seq::empty(),
            version: Seq::empty(),
            open: false,
            wants: Seq::empty(),
            found: Seq::empty(),
            lists: Seq::empty(),
        }
    } else {
        let s = cargo_read(lines.drop_last(), direct);
        if lines.last() == "[[package]]"@ {
            cargo_closed(s, direct)
        } else {
            cargo_line(s, lines.last())
        }
    }
}

/// The packages of a Cargo lock file, with the chains that lead to them. Those
/// that the manifest names are direct.
pub open spec fn cargo_deps(lock: Seq<char>, manifest: Seq<char>) -> Seq<packages::DepView> {
    let direct = cargo_keys(pieces::lines(manifest));
    let s = cargo_closed(cargo_read(pieces::lines(lock), direct), direct);
    graph::chained(s.found, graph::needs_of(s.found, s.lists))
}

fn read_cargo_keys(manifest: &str) -> (r: Vec<String>)
    ensures
        text::views(r@) == cargo_keys(pieces::lines(manifest@)),
{
    let lines = pieces::str_lines(manifest);
    let ghost all = text::views(lines@);
    let mut out: Vec<String> = Vec::new();
    let mut i: usize = 0;
    while i < lines.len()
        invariant
            i <= lines@.len(),
            all == text::views(lines@),
            text::views(out@) == cargo_keys(all.take(i as int)),
        decreases lines@.len() - i,
    {
        assert(all.take(i + 1).drop_last() =~= all.take(i as int));
        assert(all.take(i + 1).last() == lines@[i as int]@);
        let t = pieces::str_trim(&lines[i]);
        if !text::str_starts_with(&t, "[") {
            let a = pieces::str_first_piece(&t, '=');
            let b = pieces::str_trim(&a);
            out.push(pieces::str_trim_char(&b, '"'));
        }
        i += 1;
    }
    assert(all.take(all.len() as int) =~= all);
    out
}

fn is_among(v: &Vec<String>, w: &str) -> (r: bool)
    ensures
        r == text::views(v@).contains(w@),
{
    let mut i: usize = 0;
    while i < v.len()
        invariant
            i <= v@.len(),
            forall|k: int| 0 <= k < i ==> (#[trigger] text::views(v@)[k]) != w@,
        decreases v@.len() - i,
    {
        assert(text::views(v@)[i as int] == v@[i as int]@);
        if text::str_eq(&v[i], w) {
            return true;
        }
        i += 1;
    }
    false
}

/// The packages that were read from a Cargo lock file so far.
struct CargoReader {
    name: String,
    version: String,
    open: bool,
    wants: Vec<String>,
    found: Vec<Dep>,
    lists: Vec<Vec<String>>,
}

impl CargoReader {
    spec fn state(self) -> CargoState {
        CargoState {
            name: self.name@,
            version: self.version@,
            open: self.open,
            wants: text::views(self.wants@),
            found: packages::deps(self.found@),
            lists: graph::text_lists(self.lists@),
        }
    }

    fn close(&mut self, direct: &Vec<String>)
        ensures
            final(self).state() == cargo_closed(old(self).state(), text::views(direct@)),
    {
        let mut name = String::new();
        let mut version = String::new();
        let mut wants: Vec<String> = Vec::new();
        std::mem::swap(&mut name, &mut self.name);
        std::mem::swap(&mut version, &mut self.version);
        std::mem::swap(&mut wants, &mut self.wants);
        self.open = false;
        if text::char_count(&name) > 0 && text::char_count(&version) > 0 {
            let is_direct = is_among(direct, &name);
            self.found.push(Dep::named(name, version, "crates.io", is_direct, "Cargo.lock"));
            proof {
                graph::text_lists_push(self.lists@, wants);
            }
            self.lists.push(wants);
        }
    }

    fn take(&mut self, line: &str)
        ensures
            final(self).state() == cargo_line(old(self).state(), line@),
    {
        let t = pieces::str_trim(line);
        if self.open {
            if text::str_starts_with(&t, "]") {
                self.open = false;
            } else {
                let a = pieces::str_trim_end_char(&t, ',');
                self.wants.push(pieces::str_trim_char(&a, '"'));
            }
        } else if text::str_eq(&t, "dependencies = [") {
            self.open = true;
        } else {
            if let Some(v) = toml_str_field(line, "name") {
                self.name = v;
            }
            if let Some(v) = toml_str_field(line, "version") {
                self.version = v;
            }
        }
    }
}

/// The packages of a Cargo lock file, with the chains that lead to them.
pub fn parse_cargo(lock: &str, manifest: &str) -> (r: Vec<Dep>)
    ensures
        packages::deps(r@) == cargo_deps(lock@, manifest@),
{
    let direct = read_cargo_keys(manifest);
    let ghost keys = text::views(direct@);
    let lines = pieces::str_lines(lock);
    let ghost all = text::views(lines@);
    let mut s = CargoReader {
        name: String::new(),
        version: String::new(),
        open: false,
        wants: Vec::new(),
        found: Vec::new(),
        lists: Vec::new(),
    };
    assert(graph::text_lists(s.lists@) =~= Seq::empty());
    let mut i: usize = 0;
    while i < lines.len()
        invariant
            i <= lines@.len(),
            all == text::views(lines@),
            keys == text::views(direct@),
            s.state() == cargo_read(all.take(i as int), keys),
        decreases lines@.len() - i,
    {
        assert(all.take(i + 1).drop_last() =~= all.take(i as int));
        assert(all.take(i + 1).last() == lines@[i as int]@);
        if text::str_eq(&lines[i], "[[package]]") {
            s.close(&direct);
        } else {
            s.take(&lines[i]);
        }
        i += 1;
    }
    assert(all.take(all.len() as int) =~= all);
    s.close(&direct);
    graph::chain_by_entries(s.found, &s.lists)
}

// ---- Ruby ------------------------------------------------------------------------------------------

/// Reading a Gemfile lock file: whether a list of gems is open.
pub open spec fn gem_read(lines: Seq<Seq<char>>) -> GoState
    decreases lines.len(),
{
    if lines.len() == 0 {
        GoState { open: false, found: Seq::empty() }
    } else {
        let s = gem_read(lines.drop_last());
        let t = pieces::trim(lines.last());
        if t == "GEM"@ || t == "GIT"@ || t == "PATH"@ {
            GoState { open: false, ..s }
        } else if t == "specs:"@ {
            GoState { open: true, ..s }
        } else if s.open {
            match text::find(t, " ("@) {
                Some(k) => GoState {
                    found: s.found.push(
                        packages::named(
                            pieces::trim(t.take(k)),
                            pieces::trim_end_char(t.skip(k + 2), ')'),
                            "RubyGems"@,
                            false,
                            "Gemfile.lock"@,
                        ),
                    ),
                    ..s
                },
                None => s,
            }
        } else {
            s
        }
    }
}

/// The packages of a Gemfile lock file.
pub fn parse_gemfile(content: &str) -> (r: Vec<Dep>)
    ensures
        packages::deps(r@) == gem_read(pieces::lines(content@)).found,
{
    proof {
        reveal_strlit("GEM");
        reveal_strlit("GIT");
        reveal_strlit("PATH");
        reveal_strlit("specs:");
        reveal_strlit(" (");
    }
    let lines = pieces::str_lines(content);
    let ghost all = text::views(lines@);
    let mut open = false;
    let mut out: Vec<Dep> = Vec::new();
    let mut i: usize = 0;
    while i < lines.len()
        invariant
            i <= lines@.len(),
            all == text::views(lines@),
            " ("@.len() == 2,
            (GoState { open, found: packages::deps(out@) }) == gem_read(all.take(i as int)),
        decreases lines@.len() - i,
    {
        assert(all.take(i + 1).drop_last() =~= all.take(i as int));
        assert(all.take(i + 1).last() == lines@[i as int]@);
        let t = pieces::str_trim(&lines[i]);
        if text::str_eq(&t, "GEM") || text::str_eq(&t, "GIT") || text::str_eq(&t, "PATH") {
            open = false;
        } else if text::str_eq(&t, "specs:") {
            open = true;
        } else if open {
            match text::str_find(&t, " (") {
                Some(k) => {
                    let m = text::char_count(&t);
                    let a = pieces::str_take(&t, k);
                    let name = pieces::str_trim(&a);
                    let b = pieces::str_skip(&t, k + 2);
                    let version = pieces::str_trim_end_char(&b, ')');
                    out.push(Dep::named(name, version, "RubyGems", false, "Gemfile.lock"));
                },
                None => {},
            }
        }
        i += 1;
    }
    assert(all.take(all.len() as int) =~= all);
    out
}

// ---- PHP -------------------------------------------------------------------------------------------

/// The packages of a section of a Composer lock file.
pub open spec fn composer_section(v: Seq<json::JsonView>) -> Seq<packages::DepView>
    decreases v.len(),
{
    if v.len() == 0 {
        Seq::empty()
    } else {
        let before = composer_section(v.drop_last());
        let name = json::text_field(v.last(), "name"@);
        let version = pieces::trim_start_char(json::text_field(v.last(), "version"@), 'v');
        if name.len() > 0 && version.len() > 0 {
            before.push(packages::named(name, version, "Packagist"@, true, "composer.lock"@))
        } else {
            before
        }
    }
}

/// The packages of a Composer lock file that was read.
pub open spec fn composer_of(v: json::JsonView) -> Seq<packages::DepView> {
    composer_section(json::items(json::field(v, "packages"@))) + composer_section(
        json::items(json::field(v, "packages-dev"@)),
    )
}

/// The packages of a Composer lock file; none where it is no JSON document.
pub open spec fn composer_deps(content: Seq<char>) -> Seq<packages::DepView> {
    match json::parsed(content) {
        Some(v) => composer_of(v),
        None => Seq::empty(),
    }
}

fn read_composer_section(o: Option<&Json>) -> (r: Vec<Dep>)
    ensures
        packages::deps(r@) == composer_section(json::items(json::opt_value(o))),
{
    let mut out: Vec<Dep> = Vec::new();
    match json::opt_items(o) {
        None => {},
        Some(v) => {
            let ghost all = json::values(v@);
            proof {
                json::values_index(v@);
            }
            let mut i: usize = 0;
            while i < v.len()
                invariant
                    i <= v@.len(),
                    all == json::values(v@),
                    all.len() == v@.len(),
                    forall|k: int| 0 <= k < v@.len() ==> (#[trigger] all[k]) == json::value(v@[k]),
                    packages::deps(out@) == composer_section(all.take(i as int)),
                decreases v@.len() - i,
            {
                assert(all.take(i + 1).drop_last() =~= all.take(i as int));
                assert(all.take(i + 1).last() == all[i as int]);
                let name = v[i].get_text("name");
                let raw = v[i].get_text("version");
                let version = pieces::str_trim_start_char(&raw, 'v');
                push_complete(&mut out, &name, &version, "Packagist", "composer.lock", true);
                i += 1;
            }
            assert(all.take(all.len() as int) =~= all);
        },
    }
    out
}

/// The packages of a Composer lock file that was read.
pub fn composer_packages(v: &Json) -> (r: Vec<Dep>)
    ensures
        packages::deps(r@) == composer_of(v@),
{
    let mut out = read_composer_section(v.get("packages"));
    let more = read_composer_section(v.get("packages-dev"));
    packages::append(&mut out, more);
    out
}

/// The packages of a Composer lock file.
pub fn parse_composer(content: &str) -> (r: Vec<Dep>)
    ensures
        packages::deps(r@) == composer_deps(content@),
{
    match json::parse(content) {
        Some(v) => composer_packages(&v),
        None => Vec::new(),
    }
}

} // verus!
