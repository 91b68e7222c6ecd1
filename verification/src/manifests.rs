//! All manifests of a project, and the package lists of an operating system.

use vstd::prelude::*;
use crate::deps;
use crate::graph;
use crate::json;
use crate::json::Json;
use crate::lockfiles;
use crate::packages;
use crate::packages::Dep;
use crate::pieces;
use crate::text;

verus! {

broadcast use {
    vstd::seq::group_seq_axioms,
    vstd::string::group_string_axioms,
    text::views_push,
    text::views_empty,
    packages::group_deps,
};

// ---- Java ----------------------------------------------------------------------------

/// What a dependency element of a project file names; versions that are
/// properties name nothing.
pub open spec fn maven_dep(block: Seq<char>) -> Option<packages::DepView> {
    let inner = match text::find(block, "</dependency>"@) {
        Some(e) => block.take(e),
        None => block,
    };
    let group = text::text_or(deps::element(inner, "groupId"@), Seq::empty());
    let artifact = text::text_or(deps::element(inner, "artifactId"@), Seq::empty());
    let version = text::text_or(deps::element(inner, "version"@), Seq::empty());
    if group.len() > 0 && artifact.len() > 0 && version.len() > 0 && !text::starts_with(
        version,
        "$"@,
    ) {
        Some(packages::named(group + ":"@ + artifact, version, "Maven"@, true, "pom.xml"@))
    } else {
        None
    }
}

/// What the blocks of a project file name, the part before the first element
/// left out.
pub open spec fn maven_blocks(blocks: Seq<Seq<char>>) -> Seq<packages::DepView>
    decreases blocks.len(),
{
    if blocks.len() <= 1 {
        Seq::empty()
    } else {
        let before = maven_blocks(blocks.drop_last());
        match maven_dep(blocks.last()) {
            Some(d) => before.push(d),
            None => before,
        }
    }
}

/// The packages of a Maven project file.
pub open spec fn maven_deps(content: Seq<char>) -> Seq<packages::DepView> {
    maven_blocks(pieces::split_str(content, "<dependency>"@))
}

pub open spec fn dep_view(d: Option<Dep>) -> Option<packages::DepView> {
    match d {
        Some(x) => Some(x@),
        None => None,
    }
}

fn text_or_nothing(o: Option<String>) -> (r: String)
    ensures
        r@ == text::text_or(text::opt_view(o), Seq::empty()),
{
    match o {
        Some(s) => s,
        None => String::new(),
    }
}

fn read_maven_dep(block: &str) -> (r: Option<Dep>)
    ensures
        dep_view(r) == maven_dep(block@),
{
    let inner = match text::str_find(block, "</dependency>") {
        Some(e) => pieces::str_take(block, e),
        None => block.to_owned(),
    };
    let group = text_or_nothing(deps::xml_tag(&inner, "groupId"));
    let artifact = text_or_nothing(deps::xml_tag(&inner, "artifactId"));
    let version = text_or_nothing(deps::xml_tag(&inner, "version"));
    if text::char_count(&group) > 0 && text::char_count(&artifact) > 0 && text::char_count(
        &version,
    ) > 0 && !text::str_starts_with(&version, "$") {
        let mut name = group;
        name.push_str(":");
        name.push_str(&artifact);
        Some(Dep::named(name, version, "Maven", true, "pom.xml"))
    } else {
        None
    }
}

/// The packages of a Maven project file.
pub fn parse_pom(content: &str) -> (r: Vec<Dep>)
    ensures
        packages::deps(r@) == maven_deps(content@),
{
    proof {
        reveal_strlit("<dependency>");
    }
    let blocks = pieces::str_split_str(content, "<dependency>");
    let ghost all = text::views(blocks@);
    let mut out: Vec<Dep> = Vec::new();
    let mut i: usize = 0;
    while i < blocks.len()
        invariant
            i <= blocks@.len(),
            all == text::views(blocks@),
            packages::deps(out@) == maven_blocks(all.take(i as int)),
        decreases blocks@.len() - i,
    {
        assert(all.take(i + 1).drop_last() =~= all.take(i as int));
        assert(all.take(i + 1).last() == blocks@[i as int]@);
        if i > 0 {
            match read_maven_dep(&blocks[i]) {
                Some(d) => {
                    out.push(d);
                },
                None => {},
            }
        }
        i += 1;
    }
    assert(all.take(all.len() as int) =~= all);
    out
}

/// The words that introduce a dependency in a build script.
pub const GRADLE_WORDS: [&'static str; 4] = [
    "implementation",
    "api",
    "compile",
    "testImplementation",
];

/// What stands between the first two quotes of that kind.
pub open spec fn between(t: Seq<char>, quote: char) -> Option<Seq<char>> {
    match pieces::index_of(t, quote) {
        Some(a) => match pieces::index_of(t.skip(a + 1), quote) {
            Some(b) => Some(t.skip(a + 1).take(b)),
            None => None,
        },
        None => None,
    }
}

/// What a quoted coordinate names: group, artifact and version.
pub open spec fn coordinate(t: Seq<char>, quote: char) -> Seq<packages::DepView> {
    match between(t, quote) {
        Some(c) => {
            let p = pieces::split_char(c, ':');
            if p.len() == 3 {
                seq![packages::named(p[0] + ":"@ + p[1], p[2], "Maven"@, true, "build.gradle"@)]
            } else {
                Seq::empty()
            }
        },
        None => Seq::empty(),
    }
}

/// What a line names, for each of the first `n` words that it begins with.
pub open spec fn gradle_line(t: Seq<char>, n: int) -> Seq<packages::DepView>
    decreases n,
{
    if n <= 0 {
        Seq::empty()
    } else {
        gradle_line(t, n - 1) + (if text::starts_with(t, GRADLE_WORDS@[n - 1]@) {
            coordinate(t, '\'') + coordinate(t, '"')
        } else {
            Seq::empty()
        })
    }
}

/// The packages of the lines of a build script.
pub open spec fn gradle_deps(lines: Seq<Seq<char>>) -> Seq<packages::DepView>
    decreases lines.len(),
{
    if lines.len() == 0 {
        Seq::empty()
    } else {
        gradle_deps(lines.drop_last()) + gradle_line(pieces::trim(lines.last()), 4)
    }
}

fn read_coordinate(t: &str, quote: char) -> (r: Vec<Dep>)
    ensures
        packages::deps(r@) == coordinate(t@, quote),
{
    let mut out: Vec<Dep> = Vec::new();
    let v = text::chars_of(t);
    match pieces::chars_index_from(&v, quote, 0) {
        Some(a) => {
            let n: usize = v.len();
            let rest = pieces::str_skip(t, a + 1);
            let w = text::chars_of(&rest);
            match pieces::chars_index_from(&w, quote, 0) {
                Some(b) => {
                    let c = pieces::str_take(&rest, b);
                    let p = pieces::str_split_char(&c, ':');
                    if p.len() == 3 {
                        assert(text::views(p@)[0] == p@[0]@);
                        assert(text::views(p@)[1] == p@[1]@);
                        assert(text::views(p@)[2] == p@[2]@);
                        let mut name = p[0].clone();
                        name.push_str(":");
                        name.push_str(&p[1]);
                        let d = Dep::named(name, p[2].clone(), "Maven", true, "build.gradle");
                        out.push(d);
                        assert(packages::deps(out@) =~= coordinate(t@, quote));
                    }
                },
                None => {},
            }
        },
        None => {},
    }
    out
}

fn read_gradle_line(t: &str) -> (r: Vec<Dep>)
    ensures
        packages::deps(r@) == gradle_line(t@, 4),
{
    let words = GRADLE_WORDS;
    let mut out: Vec<Dep> = Vec::new();
    let mut k: usize = 0;
    while k < 4
        invariant
            k <= 4,
            words == GRADLE_WORDS,
            packages::deps(out@) == gradle_line(t@, k as int),
        decreases 4 - k,
    {
        let ghost before = packages::deps(out@);
        if text::str_starts_with(t, words[k]) {
            let mut a = read_coordinate(t, '\'');
            let b = read_coordinate(t, '"');
            packages::append(&mut a, b);
            packages::append(&mut out, a);
        } else {
            assert(before + Seq::<packages::DepView>::empty() =~= before);
        }
        k += 1;
    }
    out
}

/// The packages of a Gradle build script.
pub fn parse_gradle(content: &str) -> (r: Vec<Dep>)
    ensures
        packages::deps(r@) == gradle_deps(pieces::lines(content@)),
{
    let lines = pieces::str_lines(content);
    let ghost all = text::views(lines@);
    let mut out: Vec<Dep> = Vec::new();
    let mut i: usize = 0;
    while i < lines.len()
        invariant
            i <= lines@.len(),
            all == text::views(lines@),
            packages::deps(out@) == gradle_deps(all.take(i as int)),
        decreases lines@.len() - i,
    {
        assert(all.take(i + 1).drop_last() =~= all.take(i as int));
        assert(all.take(i + 1).last() == lines@[i as int]@);
        let t = pieces::str_trim(&lines[i]);
        let more = read_gradle_line(&t);
        packages::append(&mut out, more);
        i += 1;
    }
    assert(all.take(all.len() as int) =~= all);
    out
}

// ---- .NET ----------------------------------------------------------------------------

/// The packages of one framework in a NuGet lock file.
pub open spec fn nuget_framework(e: Seq<(Seq<char>, json::JsonView)>) -> Seq<packages::DepView>
    decreases e.len(),
{
    if e.len() == 0 {
        Seq::empty()
    } else {
        let before = nuget_framework(e.drop_last());
        let version = json::text_field(e.last().1, "resolved"@);
        if version.len() > 0 {
            before.push(
                packages::named(
                    e.last().0,
                    version,
                    "NuGet"@,
                    json::as_text(json::field(e.last().1, "type"@)) == Some("Direct"@),
                    "packages.lock.json"@,
                ),
            )
        } else {
            before
        }
    }
}

/// What each of the packages of one framework depends on.
pub open spec fn nuget_needs(e: Seq<(Seq<char>, json::JsonView)>) -> Seq<Seq<Seq<char>>>
    decreases e.len(),
{
    if e.len() == 0 {
        Seq::empty()
    } else {
        let before = nuget_needs(e.drop_last());
        if json::text_field(e.last().1, "resolved"@).len() > 0 {
            before.push(deps::keys_of(json::entries(json::field(e.last().1, "dependencies"@))))
        } else {
            before
        }
    }
}

/// The packages of one framework, with the chains that lead to them.
pub open spec fn nuget_chained(e: Seq<(Seq<char>, json::JsonView)>) -> Seq<packages::DepView> {
    graph::chained(nuget_framework(e), graph::needs_of(nuget_framework(e), nuget_needs(e)))
}

pub open spec fn nuget_frameworks(e: Seq<(Seq<char>, json::JsonView)>) -> Seq<packages::DepView>
    decreases e.len(),
{
    if e.len() == 0 {
        Seq::empty()
    } else {
        nuget_frameworks(e.drop_last()) + nuget_chained(json::entries(Some(e.last().1)))
    }
}

/// The packages of a NuGet lock file that was read.
pub open spec fn nuget_of(v: json::JsonView) -> Seq<packages::DepView> {
    nuget_frameworks(json::entries(json::field(v, "dependencies"@)))
}

/// The packages of a NuGet lock file; none where it is no JSON document.
pub open spec fn nuget_deps(content: Seq<char>) -> Seq<packages::DepView> {
    match json::parsed(content) {
        Some(v) => nuget_of(v),
        None => Seq::empty(),
    }
}

fn read_nuget_framework(j: &Json) -> (r: Vec<Dep>)
    ensures
        packages::deps(r@) == nuget_chained(json::entries(Some(j@))),
{
    let mut out: Vec<Dep> = Vec::new();
    let mut lists: Vec<Vec<String>> = Vec::new();
    assert(graph::text_lists(lists@) =~= Seq::empty());
    match json::opt_entries(Some(j)) {
        None => {},
        Some(v) => {
            let ghost all = json::fields(v@);
            proof {
                json::fields_index(v@);
            }
            let mut i: usize = 0;
            while i < v.len()
                invariant
                    i <= v@.len(),
                    all == json::fields(v@),
                    all.len() == v@.len(),
                    forall|k: int|
                        0 <= k < v@.len() ==> (#[trigger] all[k]) == (v@[k].0@, json::value(v@[k].1)),
                    packages::deps(out@) == nuget_framework(all.take(i as int)),
                    graph::text_lists(lists@) == nuget_needs(all.take(i as int)),
                decreases v@.len() - i,
            {
                assert(all.take(i + 1).drop_last() =~= all.take(i as int));
                assert(all.take(i + 1).last() == all[i as int]);
                let version = v[i].1.get_text("resolved");
                if text::char_count(&version) > 0 {
                    let kind = json::opt_text(v[i].1.get("type"));
                    let direct = text::opt_is(&kind, "Direct");
                    out.push(
                        Dep::named(v[i].0.clone(), version, "NuGet", direct, "packages.lock.json"),
                    );
                    let keys = deps::object_keys(v[i].1.get("dependencies"));
                    proof {
                        graph::text_lists_push(lists@, keys);
                    }
                    lists.push(keys);
                }
                i += 1;
            }
            assert(all.take(all.len() as int) =~= all);
        },
    }
    graph::chain_by_entries(out, &lists)
}

/// The packages of a NuGet lock file that was read.
pub fn nuget_packages(j: &Json) -> (r: Vec<Dep>)
    ensures
        packages::deps(r@) == nuget_of(j@),
{
    let mut out: Vec<Dep> = Vec::new();
    match json::opt_entries(j.get("dependencies")) {
        None => {},
        Some(v) => {
            let ghost all = json::fields(v@);
            proof {
                json::fields_index(v@);
            }
            let mut i: usize = 0;
            while i < v.len()
                invariant
                    i <= v@.len(),
                    all == json::fields(v@),
                    all.len() == v@.len(),
                    forall|k: int|
                        0 <= k < v@.len() ==> (#[trigger] all[k]) == (
                            v@[k].0@,
                            json::value(v@[k].1),
                        ),
                    packages::deps(out@) == nuget_frameworks(all.take(i as int)),
                decreases v@.len() - i,
            {
                assert(all.take(i + 1).drop_last() =~= all.take(i as int));
                assert(all.take(i + 1).last() == all[i as int]);
                let more = read_nuget_framework(&v[i].1);
                packages::append(&mut out, more);
                i += 1;
            }
            assert(all.take(all.len() as int) =~= all);
        },
    }
    out
}

/// The packages of a NuGet lock file.
pub fn parse_nuget(content: &str) -> (r: Vec<Dep>)
    ensures
        packages::deps(r@) == nuget_deps(content@),
{
    match json::parse(content) {
        Some(j) => nuget_packages(&j),
        None => Vec::new(),
    }
}

/// The packages that the blocks of a project file refer to, the part before
/// the first reference left out.
pub open spec fn csproj_blocks(blocks: Seq<Seq<char>>, file: Seq<char>) -> Seq<packages::DepView>
    decreases blocks.len(),
{
    if blocks.len() <= 1 {
        Seq::empty()
    } else {
        let before = csproj_blocks(blocks.drop_last(), file);
        let name = text::text_or(deps::attribute(blocks.last(), "Include"@), Seq::empty());
        let version = text::text_or(deps::attribute(blocks.last(), "Version"@), Seq::empty());
        if name.len() > 0 && version.len() > 0 {
            before.push(packages::named(name, version, "NuGet"@, true, file))
        } else {
            before
        }
    }
}

/// The packages that a project file refers to.
pub open spec fn csproj_deps(content: Seq<char>, file: Seq<char>) -> Seq<packages::DepView> {
    csproj_blocks(pieces::split_str(content, "<PackageReference"@), file)
}

/// The packages that a project file refers to.
pub fn parse_csproj(content: &str, file: &str) -> (r: Vec<Dep>)
    ensures
        packages::deps(r@) == csproj_deps(content@, file@),
{
    proof {
        reveal_strlit("<PackageReference");
    }
    let blocks = pieces::str_split_str(content, "<PackageReference");
    let ghost all = text::views(blocks@);
    let mut out: Vec<Dep> = Vec::new();
    let mut i: usize = 0;
    while i < blocks.len()
        invariant
            i <= blocks@.len(),
            all == text::views(blocks@),
            packages::deps(out@) == csproj_blocks(all.take(i as int), file@),
        decreases blocks@.len() - i,
    {
        assert(all.take(i + 1).drop_last() =~= all.take(i as int));
        assert(all.take(i + 1).last() == blocks@[i as int]@);
        if i > 0 {
            let name = text_or_nothing(deps::xml_attr(&blocks[i], "Include"));
            let version = text_or_nothing(deps::xml_attr(&blocks[i], "Version"));
            if text::char_count(&name) > 0 && text::char_count(&version) > 0 {
                out.push(Dep::named(name, version, "NuGet", true, file));
            }
        }
        i += 1;
    }
    assert(all.take(all.len() as int) =~= all);
    out
}

/// The packages of all project files, in order.
pub open spec fn all_csproj(files: Seq<(Seq<char>, Seq<char>)>) -> Seq<packages::DepView>
    decreases files.len(),
{
    if files.len() == 0 {
        Seq::empty()
    } else {
        all_csproj(files.drop_last()) + csproj_deps(files.last().1, files.last().0)
    }
}

fn parse_all_csproj(files: &Vec<(String, String)>) -> (r: Vec<Dep>)
    ensures
        packages::deps(r@) == all_csproj(deps::file_views(files@)),
{
    let ghost all = deps::file_views(files@);
    let mut out: Vec<Dep> = Vec::new();
    let mut i: usize = 0;
    while i < files.len()
        invariant
            i <= files@.len(),
            all == deps::file_views(files@),
            packages::deps(out@) == all_csproj(all.take(i as int)),
        decreases files@.len() - i,
    {
        assert(all.take(i + 1).drop_last() =~= all.take(i as int));
        assert(all.take(i + 1).last() == (files@[i as int].0@, files@[i as int].1@));
        let more = parse_csproj(&files[i].1, &files[i].0);
        packages::append(&mut out, more);
        i += 1;
    }
    assert(all.take(all.len() as int) =~= all);
    out
}

// ---- a whole project -------------------------------------------------------------------------

/// The manifests and lock files of a directory: what is in each file that is
/// there, and the named files with their names.
pub struct Manifests {
    pub requirements: Vec<(String, String)>,
    pub poetry_lock: Option<String>,
    pub pipfile_lock: Option<String>,
    pub pyproject: Option<String>,
    pub package_lock: Option<String>,
    pub yarn_lock: Option<String>,
    pub pnpm_lock: Option<String>,
    pub go_mod: Option<String>,
    pub go_sum: Option<String>,
    pub cargo_lock: Option<String>,
    pub cargo_toml: Option<String>,
    pub gemfile_lock: Option<String>,
    pub composer_lock: Option<String>,
    pub pom: Option<String>,
    pub gradle: Option<String>,
    pub nuget_lock: Option<String>,
    pub csproj: Vec<(String, String)>,
    pub deps_json: Vec<(String, String)>,
}

/// Python packages: requirements files, then the Poetry lock file, then that
/// of Pipenv, then the project file.
pub open spec fn python_deps(m: Manifests) -> Seq<packages::DepView> {
    deps::all_requirements(deps::file_views(m.requirements@)) + (match m.poetry_lock {
        Some(c) => deps::poetry_deps(c@),
        None => Seq::empty(),
    }) + (match m.pipfile_lock {
        Some(c) => deps::pipfile_deps(c@),
        None => Seq::empty(),
    }) + (match m.pyproject {
        Some(c) => lockfiles::project_read(pieces::lines(c@)).found,
        None => Seq::empty(),
    })
}

/// Node packages: those of the npm lock file, or of the yarn lock file where
/// there are none, or else of the pnpm lock file.
pub open spec fn nodejs_deps(m: Manifests) -> Seq<packages::DepView> {
    let npm = match m.package_lock {
        Some(c) => deps::npm_deps(c@),
        None => Seq::empty(),
    };
    let yarn = match m.yarn_lock {
        Some(c) => deps::yarn_read(pieces::lines(c@)).found,
        None => Seq::empty(),
    };
    if npm.len() > 0 {
        npm
    } else if yarn.len() > 0 {
        yarn
    } else {
        match m.pnpm_lock {
            Some(c) => lockfiles::pnpm_read(pieces::lines(c@)).found,
            None => Seq::empty(),
        }
    }
}

/// Go packages: those that are required, then those that have a sum.
pub open spec fn go_deps(m: Manifests) -> Seq<packages::DepView> {
    let required = match m.go_mod {
        Some(c) => deps::gomod_read(pieces::lines(c@)).found,
        None => Seq::empty(),
    };
    match m.go_sum {
        Some(c) => deps::gosum_read(required, pieces::lines(c@)),
        None => required,
    }
}

/// Rust packages.
pub open spec fn rust_deps(m: Manifests) -> Seq<packages::DepView> {
    match m.cargo_lock {
        Some(c) => deps::cargo_deps(
            c@,
            text::text_or(text::opt_view(m.cargo_toml), Seq::empty()),
        ),
        None => Seq::empty(),
    }
}

/// Java packages.
pub open spec fn java_deps(m: Manifests) -> Seq<packages::DepView> {
    (match m.pom {
        Some(c) => maven_deps(c@),
        None => Seq::empty(),
    }) + (match m.gradle {
        Some(c) => gradle_deps(pieces::lines(c@)),
        None => Seq::empty(),
    })
}

/// .NET packages.
pub open spec fn dotnet_deps(m: Manifests) -> Seq<packages::DepView> {
    (match m.nuget_lock {
        Some(c) => nuget_deps(c@),
        None => Seq::empty(),
    }) + all_csproj(deps::file_views(m.csproj@)) + lockfiles::all_deps_json(
        deps::file_views(m.deps_json@),
    )
}

/// All packages of a project, each once.
pub open spec fn project_deps(m: Manifests) -> Seq<packages::DepView> {
    packages::unique(
        python_deps(m) + nodejs_deps(m) + go_deps(m) + rust_deps(m) + (match m.gemfile_lock {
            Some(c) => deps::gem_read(pieces::lines(c@)).found,
            None => Seq::empty(),
        }) + (match m.composer_lock {
            Some(c) => deps::composer_deps(c@),
            None => Seq::empty(),
        }) + java_deps(m) + dotnet_deps(m),
    )
}

/// Python packages of a project.
pub fn parse_python_deps(m: &Manifests) -> (r: Vec<Dep>)
    ensures
        packages::deps(r@) == python_deps(*m),
{
    let mut out = deps::parse_all_requirements(&m.requirements);
    let ghost a = packages::deps(out@);
    assert(a + Seq::<packages::DepView>::empty() =~= a);
    match &m.poetry_lock {
        Some(c) => {
            let more = deps::parse_poetry(c);
            packages::append(&mut out, more);
        },
        None => {},
    }
    let ghost b = packages::deps(out@);
    assert(b + Seq::<packages::DepView>::empty() =~= b);
    match &m.pipfile_lock {
        Some(c) => {
            let more = deps::parse_pipfile(c);
            packages::append(&mut out, more);
        },
        None => {},
    }
    let ghost d = packages::deps(out@);
    assert(d + Seq::<packages::DepView>::empty() =~= d);
    match &m.pyproject {
        Some(c) => {
            let more = lockfiles::parse_pyproject(c);
            packages::append(&mut out, more);
        },
        None => {},
    }
    out
}

/// Node packages of a project.
pub fn parse_nodejs_deps(m: &Manifests) -> (r: Vec<Dep>)
    ensures
        packages::deps(r@) == nodejs_deps(*m),
{
    let npm = match &m.package_lock {
        Some(c) => deps::parse_package_lock(c),
        None => Vec::new(),
    };
    assert(packages::deps(npm@).len() == npm@.len());
    if npm.len() > 0 {
        return npm;
    }
    let yarn = match &m.yarn_lock {
        Some(c) => deps::parse_yarn(c),
        None => Vec::new(),
    };
    assert(packages::deps(yarn@).len() == yarn@.len());
    if yarn.len() > 0 {
        return yarn;
    }
    match &m.pnpm_lock {
        Some(c) => lockfiles::parse_pnpm(c),
        None => Vec::new(),
    }
}

/// Go packages of a project.
pub fn parse_go_deps(m: &Manifests) -> (r: Vec<Dep>)
    ensures
        packages::deps(r@) == go_deps(*m),
{
    let mut out = match &m.go_mod {
        Some(c) => deps::parse_gomod(c),
        None => Vec::new(),
    };
    match &m.go_sum {
        Some(c) => {
            deps::parse_gosum(&mut out, c);
        },
        None => {},
    }
    out
}

/// Rust packages of a project.
pub fn parse_rust_deps(m: &Manifests) -> (r: Vec<Dep>)
    ensures
        packages::deps(r@) == rust_deps(*m),
{
    match &m.cargo_lock {
        Some(c) => {
            let manifest = match &m.cargo_toml {
                Some(t) => t.clone(),
                None => String::new(),
            };
            deps::parse_cargo(c, &manifest)
        },
        None => Vec::new(),
    }
}

/// Ruby packages of a project.
pub fn parse_ruby_deps(m: &Manifests) -> (r: Vec<Dep>)
    ensures
        packages::deps(r@) == match m.gemfile_lock {
            Some(c) => deps::gem_read(pieces::lines(c@)).found,
            None => Seq::empty(),
        },
{
    match &m.gemfile_lock {
        Some(c) => deps::parse_gemfile(c),
        None => Vec::new(),
    }
}

/// PHP packages of a project.
pub fn parse_php_deps(m: &Manifests) -> (r: Vec<Dep>)
    ensures
        packages::deps(r@) == match m.composer_lock {
            Some(c) => deps::composer_deps(c@),
            None => Seq::empty(),
        },
{
    match &m.composer_lock {
        Some(c) => deps::parse_composer(c),
        None => Vec::new(),
    }
}

/// Java packages of a project.
pub fn parse_java_deps(m: &Manifests) -> (r: Vec<Dep>)
    ensures
        packages::deps(r@) == java_deps(*m),
{
    let mut out = match &m.pom {
        Some(c) => parse_pom(c),
        None => Vec::new(),
    };
    let ghost a = packages::deps(out@);
    assert(a + Seq::<packages::DepView>::empty() =~= a);
    match &m.gradle {
        Some(c) => {
            let more = parse_gradle(c);
            packages::append(&mut out, more);
        },
        None => {},
    }
    out
}

/// .NET packages of a project.
pub fn parse_dotnet_deps(m: &Manifests) -> (r: Vec<Dep>)
    ensures
        packages::deps(r@) == dotnet_deps(*m),
{
    let mut out = match &m.nuget_lock {
        Some(c) => parse_nuget(c),
        None => Vec::new(),
    };
    let more = parse_all_csproj(&m.csproj);
    packages::append(&mut out, more);
    let more = lockfiles::parse_all_deps_json(&m.deps_json);
    packages::append(&mut out, more);
    out
}

/// All packages of a project, each once.
pub fn parse_all_deps(m: &Manifests) -> (r: Vec<Dep>)
    ensures
        packages::deps(r@) == project_deps(*m),
{
    let mut out = parse_python_deps(m);
    packages::append(&mut out, parse_nodejs_deps(m));
    packages::append(&mut out, parse_go_deps(m));
    packages::append(&mut out, parse_rust_deps(m));
    packages::append(&mut out, parse_ruby_deps(m));
    packages::append(&mut out, parse_php_deps(m));
    packages::append(&mut out, parse_java_deps(m));
    packages::append(&mut out, parse_dotnet_deps(m));
    packages::dedup(&out)
}

// ---- an operating system -----------------------------------------------------------------------

/// Name and version of an operating system.
pub struct Release {
    pub name: Seq<char>,
    pub version: Seq<char>,
}

/// The value of a line, quotes taken off.
pub open spec fn unquoted(v: Seq<char>) -> Seq<char> {
    pieces::trim_char(pieces::trim(v), '"')
}

pub open spec fn release_read(lines: Seq<Seq<char>>) -> Release
    decreases lines.len(),
{
    if lines.len() == 0 {
        Release { name: Seq::empty(), version: Seq::empty() }
    } else {
        let s = release_read(lines.drop_last());
        match text::strip_prefix(lines.last(), "NAME="@) {
            Some(v) => Release { name: unquoted(v), ..s },
            None => match text::strip_prefix(lines.last(), "VERSION_ID="@) {
                Some(v) => Release { version: unquoted(v), ..s },
                None => s,
            },
        }
    }
}

/// The operating system that a release file describes.
pub open spec fn release_of(content: Seq<char>) -> Release {
    let r = release_read(pieces::lines(content));
    if r.name.len() == 0 {
        Release { name: "Linux"@, ..r }
    } else {
        r
    }
}

fn unquote(v: &str) -> (r: String)
    ensures
        r@ == unquoted(v@),
{
    let t = pieces::str_trim(v);
    pieces::str_trim_char(&t, '"')
}

/// Name and version of the operating system that a release file describes.
pub fn parse_os_release(content: &str) -> (r: (String, String))
    ensures
        (Release { name: r.0@, version: r.1@ }) == release_of(content@),
{
    let lines = pieces::str_lines(content);
    let ghost all = text::views(lines@);
    let mut name = String::new();
    let mut version = String::new();
    let mut i: usize = 0;
    while i < lines.len()
        invariant
            i <= lines@.len(),
            all == text::views(lines@),
            (Release { name: name@, version: version@ }) == release_read(all.take(i as int)),
        decreases lines@.len() - i,
    {
        assert(all.take(i + 1).drop_last() =~= all.take(i as int));
        assert(all.take(i + 1).last() == lines@[i as int]@);
        match text::str_strip_prefix(&lines[i], "NAME=") {
            Some(v) => {
                name = unquote(&v);
            },
            None => match text::str_strip_prefix(&lines[i], "VERSION_ID=") {
                Some(v) => {
                    version = unquote(&v);
                },
                None => {},
            },
        }
        i += 1;
    }
    assert(all.take(all.len() as int) =~= all);
    if text::char_count(&name) == 0 {
        name = "Linux".to_owned();
    }
    (name, version)
}

/// How an operating system is called: its name, and its version where it has
/// one.
pub fn os_label(name: &str, version: &str) -> (r: String)
    ensures
        r@ == if version@.len() == 0 {
            name@
        } else {
            name@ + " "@ + version@
        },
{
    let mut s = name.to_owned();
    if text::char_count(version) > 0 {
        s.push_str(" ");
        s.push_str(version);
    }
    s
}

/// The ecosystem of an operating system's packages.
pub open spec fn os_ecosystem(name: Seq<char>) -> Seq<char> {
    let n = text::lowercase(name);
    if text::contains(n, "ubuntu"@) {
        "Ubuntu"@
    } else if text::contains(n, "debian"@) {
        "Debian"@
    } else if text::contains(n, "alpine"@) {
        "Alpine"@
    } else if text::contains(n, "rhel"@) || text::contains(n, "red hat"@) || text::contains(
        n,
        "centos"@,
    ) || text::contains(n, "fedora"@) {
        "Red Hat"@
    } else if text::contains(n, "rocky"@) {
        "Rocky Linux"@
    } else if text::contains(n, "alma"@) {
        "AlmaLinux"@
    } else {
        "Debian"@
    }
}

/// The ecosystem of an operating system's packages.
pub fn os_to_ecosystem(name: &str) -> (r: &'static str)
    ensures
        r@ == os_ecosystem(name@),
{
    let n = text::to_lowercase(name);
    if text::str_contains(&n, "ubuntu") {
        "Ubuntu"
    } else if text::str_contains(&n, "debian") {
        "Debian"
    } else if text::str_contains(&n, "alpine") {
        "Alpine"
    } else if text::str_contains(&n, "rhel") || text::str_contains(&n, "red hat")
        || text::str_contains(&n, "centos") || text::str_contains(&n, "fedora") {
        "Red Hat"
    } else if text::str_contains(&n, "rocky") {
        "Rocky Linux"
    } else if text::str_contains(&n, "alma") {
        "AlmaLinux"
    } else {
        "Debian"
    }
}

/// Reading a list of installed packages: fields of the one that is being read,
/// and those that are complete.
pub struct Installed {
    pub name: Seq<char>,
    pub version: Seq<char>,
    pub status: Seq<char>,
    pub found: Seq<packages::DepView>,
}

/// A package counts when it has a name and a version and is installed.
pub open spec fn dpkg_closed(s: Installed, ecosystem: Seq<char>) -> Seq<packages::DepView> {
    if s.name.len() > 0 && s.version.len() > 0 && text::contains(s.status, "installed"@) {
        s.found.push(packages::named(s.name, s.version, ecosystem, true, "dpkg/status"@))
    } else {
        s.found
    }
}

pub open spec fn dpkg_read(lines: Seq<Seq<char>>, ecosystem: Seq<char>) -> Installed
    decreases lines.len(),
{
    if lines.len() == 0 {
        Installed {
            name: Seq::empty(),
            version: Seq::empty(),
            status: Seq::empty(),
            found: Seq::empty(),
        }
    } else {
        let s = dpkg_read(lines.drop_last(), ecosystem);
        let l = lines.last();
        if l.len() == 0 {
            Installed {
                name: Seq::empty(),
                version: Seq::empty(),
                status: Seq::empty(),
                found: dpkg_closed(s, ecosystem),
            }
        } else {
            match text::strip_prefix(l, "Package: "@) {
                Some(v) => Installed { name: pieces::trim(v), ..s },
                None => match text::strip_prefix(l, "Version: "@) {
                    Some(v) => Installed { version: pieces::trim(v), ..s },
                    None => match text::strip_prefix(l, "Status: "@) {
                        Some(v) => Installed { status: pieces::trim(v), ..s },
                        None => s,
                    },
                },
            }
        }
    }
}

fn push_installed(out: &mut Vec<Dep>, name: &str, version: &str, status: &str, ecosystem: &str)
    ensures
        packages::deps(final(out)@) == dpkg_closed(
            Installed {
                name: name@,
                version: version@,
                status: status@,
                found: packages::deps(old(out)@),
            },
            ecosystem@,
        ),
{
    if text::char_count(name) > 0 && text::char_count(version) > 0 && text::str_contains(
        status,
        "installed",
    ) {
        out.push(
            Dep::named(name.to_owned(), version.to_owned(), ecosystem, true, "dpkg/status"),
        );
    }
}

/// The packages that a Debian status file lists as installed.
pub fn parse_dpkg_status(content: &str, ecosystem: &str) -> (r: Vec<Dep>)
    ensures
        packages::deps(r@) == dpkg_closed(
            dpkg_read(pieces::lines(content@), ecosystem@),
            ecosystem@,
        ),
{
    let lines = pieces::str_lines(content);
    let ghost all = text::views(lines@);
    let mut name = String::new();
    let mut version = String::new();
    let mut status = String::new();
    let mut out: Vec<Dep> = Vec::new();
    let mut i: usize = 0;
    while i < lines.len()
        invariant
            i <= lines@.len(),
            all == text::views(lines@),
            (Installed {
                name: name@,
                version: version@,
                status: status@,
                found: packages::deps(out@),
            }) == dpkg_read(all.take(i as int), ecosystem@),
        decreases lines@.len() - i,
    {
        assert(all.take(i + 1).drop_last() =~= all.take(i as int));
        assert(all.take(i + 1).last() == lines@[i as int]@);
        let l = &lines[i];
        if text::char_count(l) == 0 {
            push_installed(&mut out, &name, &version, &status, ecosystem);
            name = String::new();
            version = String::new();
            status = String::new();
        } else {
            match text::str_strip_prefix(l, "Package: ") {
                Some(v) => {
                    name = pieces::str_trim(&v);
                },
                None => match text::str_strip_prefix(l, "Version: ") {
                    Some(v) => {
                        version = pieces::str_trim(&v);
                    },
                    None => match text::str_strip_prefix(l, "Status: ") {
                        Some(v) => {
                            status = pieces::str_trim(&v);
                        },
                        None => {},
                    },
                },
            }
        }
        i += 1;
    }
    assert(all.take(all.len() as int) =~= all);
    push_installed(&mut out, &name, &version, &status, ecosystem);
    out
}

/// Reading the list of installed packages of Alpine.
pub open spec fn apk_read(lines: Seq<Seq<char>>) -> deps::Stanza
    decreases lines.len(),
{
    if lines.len() == 0 {
        deps::Stanza {
            begun: true,
            name: Seq::empty(),
            version: Seq::empty(),
            found: Seq::empty(),
        }
    } else {
        let s = apk_read(lines.drop_last());
        let l = lines.last();
        if l.len() == 0 {
            deps::Stanza {
                begun: true,
                name: Seq::empty(),
                version: Seq::empty(),
                found: deps::closed(s, "Alpine"@, "apk/db/installed"@, true),
            }
        } else {
            match text::strip_prefix(l, "P:"@) {
                Some(v) => deps::Stanza { name: pieces::trim(v), ..s },
                None => match text::strip_prefix(l, "V:"@) {
                    Some(v) => deps::Stanza { version: pieces::trim(v), ..s },
                    None => s,
                },
            }
        }
    }
}

/// The packages that an Alpine database lists.
pub fn parse_apk_installed(content: &str) -> (r: Vec<Dep>)
    ensures
        packages::deps(r@) == deps::closed(
            apk_read(pieces::lines(content@)),
            "Alpine"@,
            "apk/db/installed"@,
            true,
        ),
{
    let lines = pieces::str_lines(content);
    let ghost all = text::views(lines@);
    let mut name = String::new();
    let mut version = String::new();
    let mut out: Vec<Dep> = Vec::new();
    let mut i: usize = 0;
    while i < lines.len()
        invariant
            i <= lines@.len(),
            all == text::views(lines@),
            (deps::Stanza {
                begun: true,
                name: name@,
                version: version@,
                found: packages::deps(out@),
            }) == apk_read(all.take(i as int)),
        decreases lines@.len() - i,
    {
        assert(all.take(i + 1).drop_last() =~= all.take(i as int));
        assert(all.take(i + 1).last() == lines@[i as int]@);
        let l = &lines[i];
        if text::char_count(l) == 0 {
            deps::push_complete(&mut out, &name, &version, "Alpine", "apk/db/installed", true);
            name = String::new();
            version = String::new();
        } else {
            match text::str_strip_prefix(l, "P:") {
                Some(v) => {
                    name = pieces::str_trim(&v);
                },
                None => match text::str_strip_prefix(l, "V:") {
                    Some(v) => {
                        version = pieces::str_trim(&v);
                    },
                    None => {},
                },
            }
        }
        i += 1;
    }
    assert(all.take(all.len() as int) =~= all);
    deps::push_complete(&mut out, &name, &version, "Alpine", "apk/db/installed", true);
    out
}

/// All packages of a container: those of the operating system, then those of
/// the application, each once. The lists are what is in the files that are
/// there.
pub open spec fn container_deps(
    dpkg: Option<Seq<char>>,
    apk: Option<Seq<char>>,
    ecosystem: Seq<char>,
    m: Manifests,
) -> Seq<packages::DepView> {
    packages::unique(
        (match dpkg {
            Some(c) => dpkg_closed(dpkg_read(pieces::lines(c), ecosystem), ecosystem),
            None => Seq::empty(),
        }) + (match apk {
            Some(c) => deps::closed(
                apk_read(pieces::lines(c)),
                "Alpine"@,
                "apk/db/installed"@,
                true,
            ),
            None => Seq::empty(),
        }) + project_deps(m),
    )
}

/// All packages of a container, each once.
pub fn parse_container_deps(
    dpkg: &Option<String>,
    apk: &Option<String>,
    ecosystem: &str,
    m: &Manifests,
) -> (r: Vec<Dep>)
    ensures
        packages::deps(r@) == container_deps(
            text::opt_view(*dpkg),
            text::opt_view(*apk),
            ecosystem@,
            *m,
        ),
{
    let mut out = match dpkg {
        Some(c) => parse_dpkg_status(c, ecosystem),
        None => Vec::new(),
    };
    let ghost a = packages::deps(out@);
    assert(a + Seq::<packages::DepView>::empty() =~= a);
    match apk {
        Some(c) => {
            let more = parse_apk_installed(c);
            packages::append(&mut out, more);
        },
        None => {},
    }
    packages::append(&mut out, parse_all_deps(m));
    packages::dedup(&out)
}

/// The directories of a container where applications are looked for, in turn.
pub const APP_DIRS: [&'static str; 7] = [
    "/app",
    "/usr/src/app",
    "/srv/app",
    "/home/app",
    "/opt/app",
    "/workspace",
    "/code",
];

/// No package is listed twice, however many files name it.
pub proof fn project_lists_each_package_once(m: Manifests)
    ensures
        forall|i: int, j: int|
            0 <= i < j < project_deps(m).len() ==> !packages::same_package(
                #[trigger] project_deps(m)[i],
                #[trigger] project_deps(m)[j],
            ),
{
    let all = python_deps(m) + nodejs_deps(m) + go_deps(m) + rust_deps(m) + (match m.gemfile_lock {
        Some(c) => deps::gem_read(pieces::lines(c@)).found,
        None => Seq::empty(),
    }) + (match m.composer_lock {
        Some(c) => deps::composer_deps(c@),
        None => Seq::empty(),
    }) + java_deps(m) + dotnet_deps(m);
    packages::unique_keeps_one_of_each(all);
}

} // verus!
