//! The lock file of pnpm, the project file of Python and the dependency files
//! of .NET.

use vstd::prelude::*;
use crate::deps;
use crate::json;
use crate::json::Json;
use crate::packages;
use crate::packages::Dep;
use crate::pieces;
use crate::text;

verus! {

broadcast use {
    vstd::seq::group_seq_axioms,
    vstd::string::group_string_axioms,
    text::views_push,
    text::views_empty,
    packages::group_deps,
};

// ---- pnpm ------------------------------------------------------------------------------

/// Where the name in a key of a pnpm lock file ends: at the sign before the
/// version, or at the slash that older files write there. The slash behind a
/// scope belongs to the name.
pub open spec fn name_end(key: Seq<char>) -> Option<int> {
    let scope = if key.len() > 0 && key[0] == '@' {
        pieces::index_of(key, '/')
    } else {
        Some(-1)
    };
    let slash = match scope {
        Some(a) => pieces::index_from(key, '/', a + 1),
        None => None,
    };
    match (pieces::index_from(key, '@', 1), slash) {
        (Some(a), Some(b)) => Some(
            if a < b {
                a
            } else {
                b
            },
        ),
        (Some(a), None) => Some(a),
        (None, b) => b,
    }
}

/// The key that a line of a pnpm lock file holds: without the colon, quotes and
/// the slash before it.
pub open spec fn pnpm_key(line: Seq<char>) -> Seq<char> {
    pieces::trim_start_char(
        pieces::trim_char(
            pieces::trim_char(pieces::trim_end_char(pieces::trim(line), ':'), '\''),
            '"',
        ),
        '/',
    )
}

/// Name and version in a key of a pnpm lock file. What stands behind the version
/// tells with which other packages it was installed.
pub open spec fn pnpm_package(line: Seq<char>) -> Option<(Seq<char>, Seq<char>)> {
    let key = pnpm_key(line);
    match name_end(key) {
        Some(k) => {
            let name = key.take(k);
            let version = pieces::first_piece(pieces::first_piece(key.skip(k + 1), '('), '_');
            if name.len() > 0 && version.len() > 0 {
                Some((name, version))
            } else {
                None
            }
        },
        None => None,
    }
}

/// A line that begins a section: it is not indented.
pub open spec fn is_section(line: Seq<char>) -> bool {
    line.len() > 0 && line[0] != ' ' && line[0] != '#'
}

/// A line that holds the key of a package: it is indented by two and ends with
/// a colon.
pub open spec fn is_package_key(line: Seq<char>) -> bool {
    text::starts_with(line, "  "@) && !text::starts_with(line, "   "@) && text::ends_with(
        pieces::trim(line),
        ":"@,
    )
}

/// Reading a pnpm lock file: whether the list of packages is open, and the
/// packages so far.
pub open spec fn pnpm_read(lines: Seq<Seq<char>>) -> deps::GoState
    decreases lines.len(),
{
    if lines.len() == 0 {
        deps::GoState { open: false, found: Seq::empty() }
    } else {
        let s = pnpm_read(lines.drop_last());
        let line = lines.last();
        if is_section(line) {
            deps::GoState { open: pieces::trim(line) == "packages:"@, ..s }
        } else if s.open && is_package_key(line) {
            match pnpm_package(line) {
                Some(p) => deps::GoState {
                    found: s.found.push(
                        packages::named(p.0, p.1, "npm"@, false, "pnpm-lock.yaml"@),
                    ),
                    ..s
                },
                None => s,
            }
        } else {
            s
        }
    }
}

fn find_name_end(v: &Vec<char>) -> (r: Option<usize>)
    ensures
        text::to_int(r) == name_end(v@),
        r matches Some(k) ==> k < v@.len(),
{
    let from: Option<usize> = if v.len() > 0 && v[0] == '@' {
        match pieces::chars_index_from(v, '/', 0) {
            Some(a) => Some(a + 1),
            None => None,
        }
    } else {
        Some(0)
    };
    let slash = match from {
        Some(a) => pieces::chars_index_from(v, '/', a),
        None => None,
    };
    match pieces::chars_index_from(v, '@', 1) {
        Some(a) => match slash {
            Some(b) => if a < b {
                Some(a)
            } else {
                Some(b)
            },
            None => Some(a),
        },
        None => slash,
    }
}

fn read_pnpm_package(line: &str) -> (r: Option<(String, String)>)
    ensures
        deps::pair_view(r) == pnpm_package(line@),
{
    let a = pieces::str_trim(line);
    let b = pieces::str_trim_end_char(&a, ':');
    let c = pieces::str_trim_char(&b, '\'');
    let d = pieces::str_trim_char(&c, '"');
    let key = pieces::str_trim_start_char(&d, '/');
    let v = text::chars_of(&key);
    match find_name_end(&v) {
        Some(k) => {
            let n: usize = v.len();
            let name = pieces::str_take(&key, k);
            let rest = pieces::str_skip(&key, k + 1);
            let plain = pieces::str_first_piece(&rest, '(');
            let version = pieces::str_first_piece(&plain, '_');
            if text::char_count(&name) > 0 && text::char_count(&version) > 0 {
                Some((name, version))
            } else {
                None
            }
        },
        None => None,
    }
}

/// The packages of a pnpm lock file.
pub fn parse_pnpm(content: &str) -> (r: Vec<Dep>)
    ensures
        packages::deps(r@) == pnpm_read(pieces::lines(content@)).found,
{
    let lines = pieces::str_lines(content);
    let ghost all = text::views(lines@);
    let mut open = false;
    let mut out: Vec<Dep> = Vec::new();
    let mut i: usize = 0;
    while i < lines.len()
        invariant
            i <= lines@.len(),
            all == text::views(lines@),
            (deps::GoState { open, found: packages::deps(out@) }) == pnpm_read(all.take(i as int)),
        decreases lines@.len() - i,
    {
        assert(all.take(i + 1).drop_last() =~= all.take(i as int));
        assert(all.take(i + 1).last() == lines@[i as int]@);
        let line = &lines[i];
        let t = pieces::str_trim(line);
        let v = text::chars_of(line);
        if v.len() > 0 && v[0] != ' ' && v[0] != '#' {
            open = text::str_eq(&t, "packages:");
        } else if open && text::str_starts_with(line, "  ") && !text::str_starts_with(line, "   ")
            && text::str_ends_with(&t, ":") {
            match read_pnpm_package(line) {
                Some(p) => {
                    out.push(Dep::named(p.0, p.1, "npm", false, "pnpm-lock.yaml"));
                },
                None => {},
            }
        }
        i += 1;
    }
    assert(all.take(all.len() as int) =~= all);
    out
}

// ---- Python project files --------------------------------------------------------------

/// The quote that stands first in a line.
pub open spec fn quote_of(line: Seq<char>) -> char {
    match (pieces::index_of(line, '"'), pieces::index_of(line, '\'')) {
        (Some(a), Some(b)) => if a < b {
            '"'
        } else {
            '\''
        },
        (None, Some(_)) => '\'',
        _ => '"',
    }
}

/// The packages that the quoted texts among the pieces of a line require: every
/// second piece stands between quotes. Markers behind a semicolon do not count.
pub open spec fn quoted_requirements(p: Seq<Seq<char>>) -> Seq<packages::DepView>
    decreases p.len(),
{
    if p.len() == 0 {
        Seq::empty()
    } else {
        let before = quoted_requirements(p.drop_last());
        if p.len() % 2 == 0 {
            match deps::requirement(pieces::first_piece(p.last(), ';')) {
                Some(q) => before.push(
                    packages::named(q.0, q.1, "PyPI"@, true, "pyproject.toml"@),
                ),
                None => before,
            }
        } else {
            before
        }
    }
}

/// The packages that a line of a list of requirements names.
pub open spec fn listed_requirements(line: Seq<char>) -> Seq<packages::DepView> {
    quoted_requirements(pieces::split_char(line, quote_of(line)))
}

/// A sign of a version constraint.
pub open spec fn is_constraint_sign(c: char) -> bool {
    c == '^' || c == '~' || c == '=' || c == '<' || c == '>' || c == '!' || c == ' '
}

/// A constraint without the signs before its version.
pub open spec fn without_signs(s: Seq<char>) -> Seq<char>
    decreases s.len(),
{
    if s.len() > 0 && is_constraint_sign(s[0]) {
        without_signs(s.skip(1))
    } else {
        s
    }
}

/// What stands between the first two quotes of a text.
pub open spec fn first_quoted(s: Seq<char>) -> Seq<char> {
    let p = pieces::split_char(s, quote_of(s));
    if p.len() > 2 {
        p[1]
    } else {
        Seq::empty()
    }
}

/// The version that a Poetry dependency asks for: its text, or the one of its
/// table; of several constraints the first. A constraint that begins with no
/// digit asks for none.
pub open spec fn poetry_version(value: Seq<char>) -> Seq<char> {
    let v = pieces::trim(value);
    let told = if text::starts_with(v, "{"@) {
        match text::find(v, "version"@) {
            Some(k) => first_quoted(v.skip(k)),
            None => Seq::empty(),
        }
    } else {
        first_quoted(v)
    };
    let version = pieces::trim(pieces::first_piece(without_signs(told), ','));
    if version.len() > 0 && text::is_digit(version[0]) {
        version
    } else {
        Seq::empty()
    }
}

/// What a line of Poetry's dependencies names; the interpreter is no package.
pub open spec fn poetry_line(t: Seq<char>) -> Option<(Seq<char>, Seq<char>)> {
    match pieces::index_of(t, '=') {
        Some(k) => {
            let name = pieces::trim_char(pieces::trim(t.take(k)), '"');
            let version = poetry_version(t.skip(k + 1));
            if name.len() > 0 && name != "python"@ && version.len() > 0 {
                Some((name, version))
            } else {
                None
            }
        },
        None => None,
    }
}

/// A heading of Poetry's dependencies.
pub open spec fn is_poetry_heading(t: Seq<char>) -> bool {
    t == "[tool.poetry.dependencies]"@ || t == "[tool.poetry.dev-dependencies]"@ || (
    text::starts_with(t, "[tool.poetry.group."@) && text::ends_with(t, ".dependencies]"@))
}

/// Reading a project file: the section that a line stands in, whether the list
/// of requirements is open, and the packages so far.
pub struct ProjectState {
    pub project: bool,
    pub poetry: bool,
    pub open: bool,
    pub found: Seq<packages::DepView>,
}

/// The key of a line is that of the list of requirements.
pub open spec fn is_requirement_list(t: Seq<char>) -> bool {
    match pieces::index_of(t, '=') {
        Some(k) => pieces::trim(t.take(k)) == "dependencies"@,
        None => false,
    }
}

/// The state after a line, white space around it taken off.
pub open spec fn project_line(s: ProjectState, t: Seq<char>) -> ProjectState {
    if s.open {
        if text::starts_with(t, "]"@) {
            ProjectState { open: false, ..s }
        } else {
            ProjectState {
                open: !text::ends_with(t, "]"@),
                found: s.found + listed_requirements(t),
                ..s
            }
        }
    } else if text::starts_with(t, "["@) {
        ProjectState { project: t == "[project]"@, poetry: is_poetry_heading(t), ..s }
    } else if s.project && is_requirement_list(t) {
        ProjectState {
            open: !text::ends_with(t, "]"@),
            found: s.found + listed_requirements(t),
            ..s
        }
    } else if s.poetry {
        match poetry_line(t) {
            Some(p) => ProjectState {
                found: s.found.push(packages::named(p.0, p.1, "PyPI"@, true, "pyproject.toml"@)),
                ..s
            },
            None => s,
        }
    } else {
        s
    }
}

pub open spec fn project_read(lines: Seq<Seq<char>>) -> ProjectState
    decreases lines.len(),
{
    if lines.len() == 0 {
        ProjectState { project: false, poetry: false, open: false, found: Seq::empty() }
    } else {
        project_line(project_read(lines.drop_last()), pieces::trim(lines.last()))
    }
}

fn find_quote(line: &str) -> (r: char)
    ensures
        r == quote_of(line@),
{
    let v = text::chars_of(line);
    match pieces::chars_index_from(&v, '"', 0) {
        Some(a) => match pieces::chars_index_from(&v, '\'', 0) {
            Some(b) => if a < b {
                '"'
            } else {
                '\''
            },
            None => '"',
        },
        None => match pieces::chars_index_from(&v, '\'', 0) {
            Some(_) => '\'',
            None => '"',
        },
    }
}

fn push_listed(out: &mut Vec<Dep>, line: &str)
    ensures
        packages::deps(final(out)@) == packages::deps(old(out)@) + listed_requirements(line@),
{
    let quote = find_quote(line);
    let p = pieces::str_split_char(line, quote);
    let ghost all = text::views(p@);
    let ghost start = packages::deps(out@);
    assert(start + Seq::<packages::DepView>::empty() =~= start);
    let mut i: usize = 0;
    while i < p.len()
        invariant
            i <= p@.len(),
            all == text::views(p@),
            packages::deps(out@) == start + quoted_requirements(all.take(i as int)),
        decreases p@.len() - i,
    {
        assert(all.take(i + 1).drop_last() =~= all.take(i as int));
        assert(all.take(i + 1).last() == p@[i as int]@);
        if i % 2 == 1 {
            let spec = pieces::str_first_piece(&p[i], ';');
            match deps::read_requirement(&spec) {
                Some(q) => {
                    let ghost before = quoted_requirements(all.take(i as int));
                    let d = Dep::named(q.0, q.1, "PyPI", true, "pyproject.toml");
                    assert((start + before).push(d@) =~= start + before.push(d@));
                    out.push(d);
                },
                None => {},
            }
        }
        i += 1;
    }
    assert(all.take(all.len() as int) =~= all);
}

fn strip_signs(s: &str) -> (r: String)
    ensures
        r@ == without_signs(s@),
{
    let v = text::chars_of(s);
    let mut i: usize = 0;
    assert(v@.skip(0) =~= v@);
    while i < v.len() && (v[i] == '^' || v[i] == '~' || v[i] == '=' || v[i] == '<' || v[i] == '>'
        || v[i] == '!' || v[i] == ' ')
        invariant
            i <= v@.len(),
            v@ == s@,
            without_signs(v@) == without_signs(v@.skip(i as int)),
        decreases v@.len() - i,
    {
        assert(v@.skip(i as int)[0] == v@[i as int]);
        assert(v@.skip(i as int).skip(1) =~= v@.skip(i as int + 1));
        i += 1;
    }
    assert(i < v@.len() ==> v@.skip(i as int)[0] == v@[i as int]);
    assert(i == v@.len() ==> v@.skip(i as int).len() == 0);
    pieces::str_skip(s, i)
}

fn read_first_quoted(s: &str) -> (r: String)
    ensures
        r@ == first_quoted(s@),
{
    let quote = find_quote(s);
    let p = pieces::str_split_char(s, quote);
    assert(text::views(p@).len() == p@.len());
    if p.len() > 2 {
        assert(text::views(p@)[1] == p@[1]@);
        p[1].clone()
    } else {
        String::new()
    }
}

fn read_poetry_version(value: &str) -> (r: String)
    ensures
        r@ == poetry_version(value@),
{
    let v = pieces::str_trim(value);
    let told = if text::str_starts_with(&v, "{") {
        match text::str_find(&v, "version") {
            Some(k) => {
                let n = text::char_count(&v);
                let tail = pieces::str_skip(&v, k);
                read_first_quoted(&tail)
            },
            None => String::new(),
        }
    } else {
        read_first_quoted(&v)
    };
    let plain = strip_signs(&told);
    let first = pieces::str_first_piece(&plain, ',');
    let version = pieces::str_trim(&first);
    let c = text::chars_of(&version);
    if c.len() > 0 && '0' <= c[0] && c[0] <= '9' {
        version
    } else {
        String::new()
    }
}

fn read_poetry_line(t: &str) -> (r: Option<(String, String)>)
    ensures
        deps::pair_view(r) == poetry_line(t@),
{
    let v = text::chars_of(t);
    match pieces::chars_index_from(&v, '=', 0) {
        Some(k) => {
            let n: usize = v.len();
            let head = pieces::str_take(t, k);
            let key = pieces::str_trim(&head);
            let name = pieces::str_trim_char(&key, '"');
            let tail = pieces::str_skip(t, k + 1);
            let version = read_poetry_version(&tail);
            if text::char_count(&name) > 0 && !text::str_eq(&name, "python") && text::char_count(
                &version,
            ) > 0 {
                Some((name, version))
            } else {
                None
            }
        },
        None => None,
    }
}

fn begins_requirement_list(t: &str) -> (r: bool)
    ensures
        r == is_requirement_list(t@),
{
    let v = text::chars_of(t);
    match pieces::chars_index_from(&v, '=', 0) {
        Some(k) => {
            let head = pieces::str_take(t, k);
            let key = pieces::str_trim(&head);
            text::str_eq(&key, "dependencies")
        },
        None => false,
    }
}

/// The packages of a Python project file: the requirements of the project, and
/// Poetry's dependencies.
pub fn parse_pyproject(content: &str) -> (r: Vec<Dep>)
    ensures
        packages::deps(r@) == project_read(pieces::lines(content@)).found,
{
    let lines = pieces::str_lines(content);
    let ghost all = text::views(lines@);
    let mut project = false;
    let mut poetry = false;
    let mut open = false;
    let mut out: Vec<Dep> = Vec::new();
    let mut i: usize = 0;
    while i < lines.len()
        invariant
            i <= lines@.len(),
            all == text::views(lines@),
            (ProjectState { project, poetry, open, found: packages::deps(out@) }) == project_read(
                all.take(i as int),
            ),
        decreases lines@.len() - i,
    {
        assert(all.take(i + 1).drop_last() =~= all.take(i as int));
        assert(all.take(i + 1).last() == lines@[i as int]@);
        let t = pieces::str_trim(&lines[i]);
        if open {
            if text::str_starts_with(&t, "]") {
                open = false;
            } else {
                push_listed(&mut out, &t);
                open = !text::str_ends_with(&t, "]");
            }
        } else if text::str_starts_with(&t, "[") {
            project = text::str_eq(&t, "[project]");
            poetry = text::str_eq(&t, "[tool.poetry.dependencies]") || text::str_eq(
                &t,
                "[tool.poetry.dev-dependencies]",
            ) || (text::str_starts_with(&t, "[tool.poetry.group.") && text::str_ends_with(
                &t,
                ".dependencies]",
            ));
        } else if project && begins_requirement_list(&t) {
            push_listed(&mut out, &t);
            open = !text::str_ends_with(&t, "]");
        } else if poetry {
            match read_poetry_line(&t) {
                Some(p) => {
                    out.push(Dep::named(p.0, p.1, "PyPI", true, "pyproject.toml"));
                },
                None => {},
            }
        }
        i += 1;
    }
    assert(all.take(all.len() as int) =~= all);
    out
}

// ---- .NET dependency files -------------------------------------------------------------

/// A dependency file of a .NET application.
pub fn is_deps_json_file(name: &str) -> (r: bool)
    ensures
        r == text::ends_with(name@, ".deps.json"@),
{
    text::str_ends_with(name, ".deps.json")
}

/// The packages among the libraries of a dependency file: their keys hold name
/// and version.
pub open spec fn libraries(
    e: Seq<(Seq<char>, json::JsonView)>,
    file: Seq<char>,
) -> Seq<packages::DepView>
    decreases e.len(),
{
    if e.len() == 0 {
        Seq::empty()
    } else {
        let before = libraries(e.drop_last(), file);
        let key = e.last().0;
        match pieces::index_of(key, '/') {
            Some(k) => if json::as_text(json::field(e.last().1, "type"@)) == Some("package"@) && k
                > 0 && k + 1 < key.len() {
                before.push(
                    packages::named(key.take(k), key.skip(k + 1), "NuGet"@, false, file),
                )
            } else {
                before
            },
            None => before,
        }
    }
}

/// The packages of a dependency file that was read.
pub open spec fn deps_json_of(v: json::JsonView, file: Seq<char>) -> Seq<packages::DepView> {
    libraries(json::entries(json::field(v, "libraries"@)), file)
}

/// The packages of a dependency file; none where it is no JSON document.
pub open spec fn deps_json_deps(content: Seq<char>, file: Seq<char>) -> Seq<packages::DepView> {
    match json::parsed(content) {
        Some(v) => deps_json_of(v, file),
        None => Seq::empty(),
    }
}

/// The packages of all dependency files, in order.
pub open spec fn all_deps_json(files: Seq<(Seq<char>, Seq<char>)>) -> Seq<packages::DepView>
    decreases files.len(),
{
    if files.len() == 0 {
        Seq::empty()
    } else {
        all_deps_json(files.drop_last()) + deps_json_deps(files.last().1, files.last().0)
    }
}

/// The packages of a dependency file that was read.
pub fn deps_json_packages(j: &Json, file: &str) -> (r: Vec<Dep>)
    ensures
        packages::deps(r@) == deps_json_of(j@, file@),
{
    let mut out: Vec<Dep> = Vec::new();
    match json::opt_entries(j.get("libraries")) {
        None => {},
        Some(v) => {
            let ghost all = json::fields(v@);
            proof {
                json::fields_index(v@);
            }
            let mut i: usize = 0;
            while i < v.len()
                invariant
                    i <= v@.len(),
                    all == json::fields(v@),
                    all.len() == v@.len(),
                    forall|k: int|
                        0 <= k < v@.len() ==> (#[trigger] all[k]) == (v@[k].0@, json::value(v@[k].1)),
                    packages::deps(out@) == libraries(all.take(i as int), file@),
                decreases v@.len() - i,
            {
                assert(all.take(i + 1).drop_last() =~= all.take(i as int));
                assert(all.take(i + 1).last() == all[i as int]);
                let key = &v[i].0;
                let c = text::chars_of(key);
                let kind = json::opt_text(v[i].1.get("type"));
                let is_package = text::opt_is(&kind, "package");
                match pieces::chars_index_from(&c, '/', 0) {
                    Some(k) => {
                        if is_package && k > 0 && k < c.len() - 1 {
                            let name = pieces::str_take(key, k);
                            let version = pieces::str_skip(key, k + 1);
                            out.push(Dep::named(name, version, "NuGet", false, file));
                        }
                    },
                    None => {},
                }
                i += 1;
            }
            assert(all.take(all.len() as int) =~= all);
        },
    }
    out
}

/// The packages of a dependency file.
pub fn parse_deps_json(content: &str, file: &str) -> (r: Vec<Dep>)
    ensures
        packages::deps(r@) == deps_json_deps(content@, file@),
{
    match json::parse(content) {
        Some(j) => deps_json_packages(&j, file),
        None => Vec::new(),
    }
}

pub(crate) fn parse_all_deps_json(files: &Vec<(String, String)>) -> (r: Vec<Dep>)
    ensures
        packages::deps(r@) == all_deps_json(deps::file_views(files@)),
{
    let ghost all = deps::file_views(files@);
    let mut out: Vec<Dep> = Vec::new();
    let mut i: usize = 0;
    while i < files.len()
        invariant
            i <= files@.len(),
            all == deps::file_views(files@),
            packages::deps(out@) == all_deps_json(all.take(i as int)),
        decreases files@.len() - i,
    {
        assert(all.take(i + 1).drop_last() =~= all.take(i as int));
        assert(all.take(i + 1).last() == (files@[i as int].0@, files@[i as int].1@));
        let more = parse_deps_json(&files[i].1, &files[i].0);
        packages::append(&mut out, more);
        i += 1;
    }
    assert(all.take(all.len() as int) =~= all);
    out
}

} // verus!
