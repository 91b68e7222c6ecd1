//! Known vulnerabilities of packages: what the OSV service is asked, what its
//! replies say, and how the agent is told of it.

use vstd::prelude::*;
use crate::digits;
use crate::findings;
use crate::findings::ScaFinding;
use crate::json;
use crate::json::Json;
use crate::packages;
use crate::packages::Dep;
use crate::pieces;
use crate::prompts;
use crate::severity;
use crate::severity::Rated;
use crate::text;

verus! {

broadcast use {
    vstd::seq::group_seq_axioms,
    vstd::string::group_string_axioms,
    text::views_push,
    text::views_empty,
    json::fields_push,
    json::fields_empty,
    json::values_push,
    json::values_empty,
};

/// A vulnerability of a package.
#[derive(Clone, Debug)]
pub struct OsvVuln {
    pub id: String,
    pub aliases: Vec<String>,
    pub summary: String,
    /// critical, high, medium or low.
    pub severity: String,
    pub fix_versions: Vec<String>,
    pub details: String,
    pub pkg_name: String,
    pub pkg_version: String,
    pub pkg_ecosystem: String,
    pub is_direct: bool,
    pub via: Vec<String>,
    pub manifest: String,
}

pub struct OsvVulnView {
    pub id: Seq<char>,
    pub aliases: Seq<Seq<char>>,
    pub summary: Seq<char>,
    pub severity: Seq<char>,
    pub fix_versions: Seq<Seq<char>>,
    pub details: Seq<char>,
    pub pkg_name: Seq<char>,
    pub pkg_version: Seq<char>,
    pub pkg_ecosystem: Seq<char>,
    pub is_direct: bool,
    pub via: Seq<Seq<char>>,
    pub manifest: Seq<char>,
}

impl View for OsvVuln {
    type V = OsvVulnView;

    open spec fn view(&self) -> OsvVulnView {
        OsvVulnView {
            id: self.id@,
            aliases: text::views(self.aliases@),
            summary: self.summary@,
            severity: self.severity@,
            fix_versions: text::views(self.fix_versions@),
            details: self.details@,
            pkg_name: self.pkg_name@,
            pkg_version: self.pkg_version@,
            pkg_ecosystem: self.pkg_ecosystem@,
            is_direct: self.is_direct,
            via: text::views(self.via@),
            manifest: self.manifest@,
        }
    }
}

impl Rated for OsvVuln {
    open spec fn label(v: OsvVulnView) -> Seq<char> {
        v.severity
    }

    fn severity(&self) -> (r: &str) {
        self.severity.as_str()
    }

    fn duplicate(&self) -> (r: OsvVuln) {
        OsvVuln {
            id: self.id.clone(),
            aliases: text::clone_strings(&self.aliases),
            summary: self.summary.clone(),
            severity: self.severity.clone(),
            fix_versions: text::clone_strings(&self.fix_versions),
            details: self.details.clone(),
            pkg_name: self.pkg_name.clone(),
            pkg_version: self.pkg_version.clone(),
            pkg_ecosystem: self.pkg_ecosystem.clone(),
            is_direct: self.is_direct,
            via: text::clone_strings(&self.via),
            manifest: self.manifest.clone(),
        }
    }
}

// ---- severities ------------------------------------------------------------------------

/// The label of a score by its whole part.
pub open spec fn score_label(whole: u32) -> Seq<char> {
    if whole <= 3 {
        "low"@
    } else if whole <= 6 {
        "medium"@
    } else if whole <= 8 {
        "high"@
    } else {
        "critical"@
    }
}

/// The label of a score by its whole part.
pub fn cvss_label(whole: u32) -> (r: String)
    ensures
        r@ == score_label(whole),
{
    if whole <= 3 {
        "low".to_owned()
    } else if whole <= 6 {
        "medium".to_owned()
    } else if whole <= 8 {
        "high".to_owned()
    } else {
        "critical".to_owned()
    }
}

/// A rough label for a CVSS vector: by reach, scope and impact.
pub open spec fn vector_label(v: Seq<char>) -> Seq<char> {
    let network = text::contains(v, "/AV:N"@);
    let scope = text::contains(v, "/S:C"@);
    let c = text::contains(v, "/C:H"@);
    let i = text::contains(v, "/I:H"@);
    let a = text::contains(v, "/A:H"@);
    if (c && i) || (scope && (c || i)) {
        if network {
            "critical"@
        } else {
            "high"@
        }
    } else if c || i || a {
        "high"@
    } else if text::contains(v, "/C:L"@) || text::contains(v, "/I:L"@) || text::contains(v, "/A:L"@) {
        "medium"@
    } else {
        "low"@
    }
}

/// A rough label for a CVSS vector.
pub fn cvss_vector_severity(v: &str) -> (r: String)
    ensures
        r@ == vector_label(v@),
{
    let network = text::str_contains(v, "/AV:N");
    let scope = text::str_contains(v, "/S:C");
    let c = text::str_contains(v, "/C:H");
    let i = text::str_contains(v, "/I:H");
    let a = text::str_contains(v, "/A:H");
    if (c && i) || (scope && (c || i)) {
        if network {
            return "critical".to_owned();
        }
        return "high".to_owned();
    }
    if c || i || a {
        return "high".to_owned();
    }
    if text::str_contains(v, "/C:L") || text::str_contains(v, "/I:L") || text::str_contains(
        v,
        "/A:L",
    ) {
        return "medium".to_owned();
    }
    "low".to_owned()
}

/// The label that a database's own word stands for.
pub open spec fn word_label(s: Seq<char>) -> Seq<char> {
    let l = text::lowercase(s);
    if l == "critical"@ {
        "critical"@
    } else if l == "high"@ || l == "important"@ {
        "high"@
    } else if l == "moderate"@ || l == "medium"@ {
        "medium"@
    } else if l == "low"@ || l == "minor"@ {
        "low"@
    } else {
        "medium"@
    }
}

/// The label that a database's own word stands for.
pub fn normalise_severity(s: &str) -> (r: String)
    ensures
        r@ == word_label(s@),
{
    let l = text::to_lowercase(s);
    if text::str_eq(&l, "critical") {
        "critical".to_owned()
    } else if text::str_eq(&l, "high") || text::str_eq(&l, "important") {
        "high".to_owned()
    } else if text::str_eq(&l, "moderate") || text::str_eq(&l, "medium") {
        "medium".to_owned()
    } else if text::str_eq(&l, "low") || text::str_eq(&l, "minor") {
        "low".to_owned()
    } else {
        "medium".to_owned()
    }
}

/// The label that a distribution's urgency stands for; none for one that says
/// nothing.
pub open spec fn urgency_label(u: Seq<char>) -> Option<Seq<char>> {
    let l = text::lowercase(u);
    if l == "low"@ || l == "minor"@ {
        Some("low"@)
    } else if l == "medium"@ || l == "moderate"@ {
        Some("medium"@)
    } else if l == "high"@ || l == "important"@ || l == "critical"@ || l == "grave"@ {
        Some("high"@)
    } else {
        None
    }
}

fn label_of_urgency(u: &str) -> (r: Option<String>)
    ensures
        text::opt_view(r) == urgency_label(u@),
{
    let l = text::to_lowercase(u);
    if text::str_eq(&l, "low") || text::str_eq(&l, "minor") {
        Some("low".to_owned())
    } else if text::str_eq(&l, "medium") || text::str_eq(&l, "moderate") {
        Some("medium".to_owned())
    } else if text::str_eq(&l, "high") || text::str_eq(&l, "important") || text::str_eq(
        &l,
        "critical",
    ) || text::str_eq(&l, "grave") {
        Some("high".to_owned())
    } else {
        None
    }
}

/// The score texts of the entries of the kinds that are read.
pub open spec fn scores_in(v: Seq<json::JsonView>) -> Seq<Seq<char>>
    decreases v.len(),
{
    if v.len() == 0 {
        Seq::empty()
    } else {
        let before = scores_in(v.drop_last());
        let kind = json::text_field(v.last(), "type"@);
        match json::as_text(json::field(v.last(), "score"@)) {
            Some(s) if kind == "CVSS_V3"@ || kind == "CVSS_V4"@ => before.push(s),
            _ => before,
        }
    }
}

/// The score texts of a vulnerability, in order.
pub open spec fn score_texts(vuln: json::JsonView) -> Seq<Seq<char>> {
    scores_in(json::items(json::field(vuln, "severity"@)))
}

/// The score texts of a vulnerability, in order: numbers or vectors.
pub fn cvss_scores(vuln: &Json) -> (r: Vec<String>)
    ensures
        text::views(r@) == score_texts(vuln@),
{
    let mut out: Vec<String> = Vec::new();
    match json::opt_items(vuln.get("severity")) {
        None => {},
        Some(v) => {
            let ghost all = json::values(v@);
            proof {
                json::values_index(v@);
            }
            let mut i: usize = 0;
            while i < v.len()
                invariant
                    i <= v@.len(),
                    all == json::values(v@),
                    all.len() == v@.len(),
                    forall|k: int| 0 <= k < v@.len() ==> (#[trigger] all[k]) == json::value(v@[k]),
                    text::views(out@) == scores_in(all.take(i as int)),
                decreases v@.len() - i,
            {
                assert(all.take(i + 1).drop_last() =~= all.take(i as int));
                assert(all.take(i + 1).last() == all[i as int]);
                let kind = v[i].get_text("type");
                if text::str_eq(&kind, "CVSS_V3") || text::str_eq(&kind, "CVSS_V4") {
                    match json::opt_text(v[i].get("score")) {
                        Some(s) => {
                            out.push(s);
                        },
                        None => {},
                    }
                }
                i += 1;
            }
            assert(all.take(all.len() as int) =~= all);
        },
    }
    out
}

/// The label of the first score that is a number or a vector. `whole` holds
/// the whole part of each text that is a number.
pub open spec fn scored(texts: Seq<Seq<char>>, whole: Seq<Option<u32>>, from: int) -> Option<Seq<char>>
    decreases texts.len() - from,
{
    if from < 0 || from >= texts.len() {
        None
    } else {
        match whole[from] {
            Some(n) => Some(score_label(n)),
            None => if text::starts_with(texts[from], "CVSS:"@) {
                Some(vector_label(texts[from]))
            } else {
                scored(texts, whole, from + 1)
            },
        }
    }
}

/// The label of the first urgency that says something.
pub open spec fn urgent(v: Seq<json::JsonView>, from: int) -> Option<Seq<char>>
    decreases v.len() - from,
{
    if from < 0 || from >= v.len() {
        None
    } else {
        match json::as_text(
            json::opt_field(json::field(v[from], "ecosystem_specific"@), "urgency"@),
        ) {
            Some(u) => match urgency_label(u) {
                Some(l) => Some(l),
                None => urgent(v, from + 1),
            },
            None => urgent(v, from + 1),
        }
    }
}

/// The severity of a vulnerability: by its scores, else by the database's own
/// word, else by a distribution's urgency, else medium.
pub open spec fn vuln_severity(vuln: json::JsonView, whole: Seq<Option<u32>>) -> Seq<char> {
    match scored(score_texts(vuln), whole, 0) {
        Some(l) => l,
        None => match json::as_text(
            json::opt_field(json::field(vuln, "database_specific"@), "severity"@),
        ) {
            Some(w) => word_label(w),
            None => match urgent(json::items(json::field(vuln, "affected"@)), 0) {
                Some(l) => l,
                None => "medium"@,
            },
        },
    }
}

/// The severity of a vulnerability. `whole` holds, for each score text, its
/// whole part where it is a number.
pub fn extract_osv_severity(vuln: &Json, whole: &Vec<Option<u32>>) -> (r: String)
    requires
        whole@.len() == score_texts(vuln@).len(),
    ensures
        r@ == vuln_severity(vuln@, whole@),
{
    let texts = cvss_scores(vuln);
    let ghost all = text::views(texts@);
    let mut i: usize = 0;
    while i < texts.len()
        invariant
            i <= texts@.len(),
            texts@.len() == whole@.len(),
            all == text::views(texts@),
            all == score_texts(vuln@),
            scored(all, whole@, 0) == scored(all, whole@, i as int),
        decreases texts@.len() - i,
    {
        assert(all[i as int] == texts@[i as int]@);
        match whole[i] {
            Some(n) => {
                return cvss_label(n);
            },
            None => {
                if text::str_starts_with(&texts[i], "CVSS:") {
                    return cvss_vector_severity(&texts[i]);
                }
            },
        }
        i += 1;
    }
    match json::opt_text(json::opt_get(vuln.get("database_specific"), "severity")) {
        Some(w) => {
            return normalise_severity(&w);
        },
        None => {},
    }
    match json::opt_items(vuln.get("affected")) {
        None => {},
        Some(v) => {
            let ghost list = json::values(v@);
            proof {
                json::values_index(v@);
            }
            let mut k: usize = 0;
            while k < v.len()
                invariant
                    k <= v@.len(),
                    list == json::values(v@),
                    list.len() == v@.len(),
                    list == json::items(json::field(vuln@, "affected"@)),
                    forall|j: int| 0 <= j < v@.len() ==> (#[trigger] list[j]) == json::value(v@[j]),
                    scored(score_texts(vuln@), whole@, 0) is None,
                    json::as_text(
                        json::opt_field(json::field(vuln@, "database_specific"@), "severity"@),
                    ) is None,
                    urgent(list, 0) == urgent(list, k as int),
                decreases v@.len() - k,
            {
                assert(list[k as int] == json::value(v@[k as int]));
                match json::opt_text(json::opt_get(v[k].get("ecosystem_specific"), "urgency")) {
                    Some(u) => match label_of_urgency(&u) {
                        Some(l) => {
                            return l;
                        },
                        None => {},
                    },
                    None => {},
                }
                k += 1;
            }
        },
    }
    "medium".to_owned()
}

// ---- versions with a fix -----------------------------------------------------------------

/// The fixed versions among the events of a range.
pub open spec fn fixes_in_events(v: Seq<json::JsonView>) -> Seq<Seq<char>>
    decreases v.len(),
{
    if v.len() == 0 {
        Seq::empty()
    } else {
        let before = fixes_in_events(v.drop_last());
        match json::as_text(json::field(v.last(), "fixed"@)) {
            Some(f) => before.push(f),
            None => before,
        }
    }
}

pub open spec fn fixes_in_ranges(v: Seq<json::JsonView>) -> Seq<Seq<char>>
    decreases v.len(),
{
    if v.len() == 0 {
        Seq::empty()
    } else {
        fixes_in_ranges(v.drop_last()) + fixes_in_events(
            json::items(json::field(v.last(), "events"@)),
        )
    }
}

pub open spec fn fixes_in_affected(v: Seq<json::JsonView>) -> Seq<Seq<char>>
    decreases v.len(),
{
    if v.len() == 0 {
        Seq::empty()
    } else {
        fixes_in_affected(v.drop_last()) + fixes_in_ranges(
            json::items(json::field(v.last(), "ranges"@)),
        )
    }
}

/// A list without repetitions of a word right behind itself.
pub open spec fn without_repeats(v: Seq<Seq<char>>) -> Seq<Seq<char>>
    decreases v.len(),
{
    if v.len() == 0 {
        Seq::empty()
    } else {
        let before = without_repeats(v.drop_last());
        if v.len() > 1 && v[v.len() - 2] == v.last() {
            before
        } else {
            before.push(v.last())
        }
    }
}

/// The versions in which a vulnerability is fixed.
pub open spec fn fixes_of(vuln: json::JsonView) -> Seq<Seq<char>> {
    without_repeats(fixes_in_affected(json::items(json::field(vuln, "affected"@))))
}

fn append_texts(out: &mut Vec<String>, more: Vec<String>)
    ensures
        text::views(final(out)@) == text::views(old(out)@) + text::views(more@),
{
    let mut rest = more;
    let ghost a = out@;
    let ghost b = rest@;
    out.append(&mut rest);
    assert(text::views(a + b) =~= text::views(a) + text::views(b));
}

fn event_fixes(o: Option<&Json>) -> (r: Vec<String>)
    ensures
        text::views(r@) == fixes_in_events(json::items(json::opt_value(o))),
{
    let mut out: Vec<String> = Vec::new();
    match json::opt_items(o) {
        None => {},
        Some(v) => {
            let ghost all = json::values(v@);
            proof {
                json::values_index(v@);
            }
            let mut i: usize = 0;
            while i < v.len()
                invariant
                    i <= v@.len(),
                    all == json::values(v@),
                    all.len() == v@.len(),
                    forall|k: int| 0 <= k < v@.len() ==> (#[trigger] all[k]) == json::value(v@[k]),
                    text::views(out@) == fixes_in_events(all.take(i as int)),
                decreases v@.len() - i,
            {
                assert(all.take(i + 1).drop_last() =~= all.take(i as int));
                assert(all.take(i + 1).last() == all[i as int]);
                match json::opt_text(v[i].get("fixed")) {
                    Some(f) => {
                        out.push(f);
                    },
                    None => {},
                }
                i += 1;
            }
            assert(all.take(all.len() as int) =~= all);
        },
    }
    out
}

fn range_fixes(o: Option<&Json>) -> (r: Vec<String>)
    ensures
        text::views(r@) == fixes_in_ranges(json::items(json::opt_value(o))),
{
    let mut out: Vec<String> = Vec::new();
    match json::opt_items(o) {
        None => {},
        Some(v) => {
            let ghost all = json::values(v@);
            proof {
                json::values_index(v@);
            }
            let mut i: usize = 0;
            while i < v.len()
                invariant
                    i <= v@.len(),
                    all == json::values(v@),
                    all.len() == v@.len(),
                    forall|k: int| 0 <= k < v@.len() ==> (#[trigger] all[k]) == json::value(v@[k]),
                    text::views(out@) == fixes_in_ranges(all.take(i as int)),
                decreases v@.len() - i,
            {
                assert(all.take(i + 1).drop_last() =~= all.take(i as int));
                assert(all.take(i + 1).last() == all[i as int]);
                let more = event_fixes(v[i].get("events"));
                append_texts(&mut out, more);
                i += 1;
            }
            assert(all.take(all.len() as int) =~= all);
        },
    }
    out
}

fn drop_repeats(v: &Vec<String>) -> (r: Vec<String>)
    ensures
        text::views(r@) == without_repeats(text::views(v@)),
{
    let ghost all = text::views(v@);
    let mut out: Vec<String> = Vec::new();
    let mut i: usize = 0;
    while i < v.len()
        invariant
            i <= v@.len(),
            all == text::views(v@),
            text::views(out@) == without_repeats(all.take(i as int)),
        decreases v@.len() - i,
    {
        let ghost t = all.take(i + 1);
        assert(t.drop_last() =~= all.take(i as int));
        assert(t.last() == v@[i as int]@);
        if i > 0 {
            assert(t[t.len() - 2] == v@[i - 1]@);
        }
        if !(i > 0 && text::str_eq(&v[i - 1], &v[i])) {
            out.push(v[i].clone());
        }
        i += 1;
    }
    assert(all.take(all.len() as int) =~= all);
    out
}

/// The versions in which a vulnerability is fixed.
pub fn extract_fix_versions(vuln: &Json) -> (r: Vec<String>)
    ensures
        text::views(r@) == fixes_of(vuln@),
{
    let mut out: Vec<String> = Vec::new();
    match json::opt_items(vuln.get("affected")) {
        None => {},
        Some(v) => {
            let ghost all = json::values(v@);
            proof {
                json::values_index(v@);
            }
            let mut i: usize = 0;
            while i < v.len()
                invariant
                    i <= v@.len(),
                    all == json::values(v@),
                    all.len() == v@.len(),
                    forall|k: int| 0 <= k < v@.len() ==> (#[trigger] all[k]) == json::value(v@[k]),
                    text::views(out@) == fixes_in_affected(all.take(i as int)),
                decreases v@.len() - i,
            {
                assert(all.take(i + 1).drop_last() =~= all.take(i as int));
                assert(all.take(i + 1).last() == all[i as int]);
                let more = range_fixes(v[i].get("ranges"));
                append_texts(&mut out, more);
                i += 1;
            }
            assert(all.take(all.len() as int) =~= all);
        },
    }
    drop_repeats(&out)
}

// ---- questions and replies --------------------------------------------------------------------

/// The packages of one question.
pub const OSV_CHUNK: usize = 1000;

/// The details that are fetched at once.
pub const OSV_FETCH: usize = 20;

/// The question for one package.
pub open spec fn package_query(d: packages::DepView) -> json::JsonView {
    json::JsonView::Obj(
        json::no_entries()
            .push(
                (
                    "package"@,
                    json::JsonView::Obj(
                        json::no_entries()
                            .push(("name"@, json::JsonView::Str(d.name)))
                            .push(("ecosystem"@, json::JsonView::Str(d.ecosystem))),
                    ),
                ),
            )
            .push(("version"@, json::JsonView::Str(d.version))),
    )
}

/// The question for a list of packages.
pub open spec fn batch_query(v: Seq<packages::DepView>) -> json::JsonView {
    json::JsonView::Obj(
        json::no_entries().push(
            (
                "queries"@,
                json::JsonView::Arr(v.map_values(|d: packages::DepView| package_query(d))),
            ),
        ),
    )
}

fn package_query_json(d: &Dep) -> (r: Json)
    ensures
        r@ == package_query(d@),
{
    let mut p = json::no_fields();
    json::put_text(&mut p, "name", &d.name);
    json::put_text(&mut p, "ecosystem", &d.ecosystem);
    let mut o = json::no_fields();
    json::put(&mut o, "package", Json::Obj(p));
    json::put_text(&mut o, "version", &d.version);
    Json::Obj(o)
}

/// The question for the packages from `from` up to `to`, as a document.
pub fn osv_query(v: &Vec<Dep>, from: usize, to: usize) -> (r: String)
    requires
        from <= to <= v@.len(),
    ensures
        r@ == json::compact_text(
            json::normal(batch_query(packages::deps(v@).subrange(from as int, to as int))),
        ),
{
    let ghost all = packages::deps(v@).subrange(from as int, to as int);
    let ghost want = all.map_values(|d: packages::DepView| package_query(d));
    let mut out: Vec<Json> = Vec::new();
    assert(want.take(0) =~= Seq::empty());
    let mut i: usize = from;
    while i < to
        invariant
            from <= i <= to <= v@.len(),
            all == packages::deps(v@).subrange(from as int, to as int),
            want == all.map_values(|d: packages::DepView| package_query(d)),
            json::values(out@) == want.take(i - from),
        decreases to - i,
    {
        let ghost k = i - from;
        assert(all[k] == v@[i as int]@);
        let j = package_query_json(&v[i]);
        out.push(j);
        assert(want.take(k + 1) =~= want.take(k).push(want[k]));
        i += 1;
    }
    assert(want.take(want.len() as int) =~= want);
    let mut o = json::no_fields();
    json::put(&mut o, "queries", Json::Arr(out));
    json::to_text(&Json::Obj(o))
}

/// The ids among the vulnerabilities of one package, with its position.
pub open spec fn ids_at(position: int, v: Seq<json::JsonView>) -> Seq<(int, Seq<char>)>
    decreases v.len(),
{
    if v.len() == 0 {
        Seq::empty()
    } else {
        let before = ids_at(position, v.drop_last());
        match json::as_text(json::field(v.last(), "id"@)) {
            Some(id) => before.push((position, id)),
            None => before,
        }
    }
}

/// The ids in the results of a reply: the n-th result belongs to the n-th
/// package from `start` on.
pub open spec fn ids_in(start: int, results: Seq<json::JsonView>) -> Seq<(int, Seq<char>)>
    decreases results.len(),
{
    if results.len() == 0 {
        Seq::empty()
    } else {
        ids_in(start, results.drop_last()) + ids_at(
            start + results.len() - 1,
            json::items(json::field(results.last(), "vulns"@)),
        )
    }
}

pub open spec fn hits(v: Seq<(usize, String)>) -> Seq<(int, Seq<char>)> {
    v.map_values(|h: (usize, String)| (h.0 as int, h.1@))
}

fn push_ids(out: &mut Vec<(usize, String)>, position: usize, o: Option<&Json>)
    ensures
        hits(final(out)@) == hits(old(out)@) + ids_at(
            position as int,
            json::items(json::opt_value(o)),
        ),
{
    let ghost start = hits(out@);
    assert(start + Seq::<(int, Seq<char>)>::empty() =~= start);
    match json::opt_items(o) {
        None => {},
        Some(v) => {
            let ghost all = json::values(v@);
            proof {
                json::values_index(v@);
            }
            let mut i: usize = 0;
            while i < v.len()
                invariant
                    i <= v@.len(),
                    all == json::values(v@),
                    all.len() == v@.len(),
                    forall|k: int| 0 <= k < v@.len() ==> (#[trigger] all[k]) == json::value(v@[k]),
                    hits(out@) == start + ids_at(position as int, all.take(i as int)),
                decreases v@.len() - i,
            {
                assert(all.take(i + 1).drop_last() =~= all.take(i as int));
                assert(all.take(i + 1).last() == all[i as int]);
                let ghost part = ids_at(position as int, all.take(i as int));
                match json::opt_text(v[i].get("id")) {
                    Some(id) => {
                        let ghost before = out@;
                        out.push((position, id));
                        assert(hits(out@) =~= hits(before).push((position as int, id@)));
                        assert((start + part).push((position as int, id@)) =~= start + part.push(
                            (position as int, id@),
                        ));
                    },
                    None => {},
                }
                i += 1;
            }
            assert(all.take(all.len() as int) =~= all);
        },
    }
}

/// Adds the ids in a reply, each with the position of its package.
pub fn read_batch(out: &mut Vec<(usize, String)>, reply: &Json, start: usize)
    requires
        start + json::items(json::field(reply@, "results"@)).len() <= usize::MAX,
    ensures
        hits(final(out)@) == hits(old(out)@) + ids_in(
            start as int,
            json::items(json::field(reply@, "results"@)),
        ),
{
    let ghost begun = hits(out@);
    assert(begun + Seq::<(int, Seq<char>)>::empty() =~= begun);
    match json::opt_items(reply.get("results")) {
        None => {},
        Some(v) => {
            let ghost all = json::values(v@);
            proof {
                json::values_index(v@);
            }
            let mut i: usize = 0;
            while i < v.len()
                invariant
                    i <= v@.len(),
                    all == json::values(v@),
                    all.len() == v@.len(),
                    start + v@.len() <= usize::MAX,
                    forall|k: int| 0 <= k < v@.len() ==> (#[trigger] all[k]) == json::value(v@[k]),
                    hits(out@) == begun + ids_in(start as int, all.take(i as int)),
                decreases v@.len() - i,
            {
                assert(all.take(i + 1).drop_last() =~= all.take(i as int));
                assert(all.take(i + 1).last() == all[i as int]);
                let ghost part = ids_in(start as int, all.take(i as int));
                let ghost more = ids_at(
                    start + i,
                    json::items(json::field(all[i as int], "vulns"@)),
                );
                push_ids(out, start + i, v[i].get("vulns"));
                assert((begun + part) + more =~= begun + (part + more));
                i += 1;
            }
            assert(all.take(all.len() as int) =~= all);
        },
    }
}

/// The ids, each once, where it occurs first.
pub open spec fn distinct_ids(v: Seq<(int, Seq<char>)>) -> Seq<Seq<char>>
    decreases v.len(),
{
    if v.len() == 0 {
        Seq::empty()
    } else {
        let before = distinct_ids(v.drop_last());
        if before.contains(v.last().1) {
            before
        } else {
            before.push(v.last().1)
        }
    }
}

fn holds_text(v: &Vec<String>, w: &str) -> (r: bool)
    ensures
        r == text::views(v@).contains(w@),
{
    let mut i: usize = 0;
    while i < v.len()
        invariant
            i <= v@.len(),
            forall|k: int| 0 <= k < i ==> (#[trigger] text::views(v@)[k]) != w@,
        decreases v@.len() - i,
    {
        assert(text::views(v@)[i as int] == v@[i as int]@);
        if text::str_eq(&v[i], w) {
            return true;
        }
        i += 1;
    }
    false
}

/// The ids whose details are fetched, each once.
pub fn unique_ids(v: &Vec<(usize, String)>) -> (r: Vec<String>)
    ensures
        text::views(r@) == distinct_ids(hits(v@)),
{
    let ghost all = hits(v@);
    let mut out: Vec<String> = Vec::new();
    let mut i: usize = 0;
    while i < v.len()
        invariant
            i <= v@.len(),
            all == hits(v@),
            text::views(out@) == distinct_ids(all.take(i as int)),
        decreases v@.len() - i,
    {
        assert(all.take(i + 1).drop_last() =~= all.take(i as int));
        assert(all.take(i + 1).last() == (v@[i as int].0 as int, v@[i as int].1@));
        if !holds_text(&out, &v[i].1) {
            out.push(v[i].1.clone());
        }
        i += 1;
    }
    assert(all.take(all.len() as int) =~= all);
    out
}

// ---- vulnerabilities ------------------------------------------------------------------------------

/// The texts among the items of a list.
pub open spec fn texts_in(v: Seq<json::JsonView>) -> Seq<Seq<char>>
    decreases v.len(),
{
    if v.len() == 0 {
        Seq::empty()
    } else {
        match v.last() {
            json::JsonView::Str(s) => texts_in(v.drop_last()).push(s),
            _ => texts_in(v.drop_last()),
        }
    }
}

/// The names with those of a second list that are not among them.
pub open spec fn with_upstream(names: Seq<Seq<char>>, v: Seq<json::JsonView>) -> Seq<Seq<char>>
    decreases v.len(),
{
    if v.len() == 0 {
        names
    } else {
        let before = with_upstream(names, v.drop_last());
        match v.last() {
            json::JsonView::Str(s) if !before.contains(s) => before.push(s),
            _ => before,
        }
    }
}

/// The other names of a vulnerability.
pub open spec fn aliases_of(vuln: json::JsonView) -> Seq<Seq<char>> {
    with_upstream(
        texts_in(json::items(json::field(vuln, "aliases"@))),
        json::items(json::field(vuln, "upstream"@)),
    )
}

/// The summary of a vulnerability, or the first sentence of its details.
pub open spec fn summary_of(vuln: json::JsonView) -> Seq<char> {
    match json::as_text(json::field(vuln, "summary"@)) {
        Some(s) if s.len() > 0 => s,
        _ => {
            let d = json::text_field(vuln, "details"@);
            text::prefix(
                match text::find(d, ". "@) {
                    Some(k) => d.take(k),
                    None => d,
                },
                120,
            )
        },
    }
}

/// What is known of a vulnerability of a package.
pub open spec fn vuln_of(
    d: packages::DepView,
    asked: Seq<char>,
    vuln: json::JsonView,
    whole: Seq<Option<u32>>,
) -> OsvVulnView {
    OsvVulnView {
        id: text::text_or(json::as_text(json::field(vuln, "id"@)), asked),
        aliases: aliases_of(vuln),
        summary: summary_of(vuln),
        severity: vuln_severity(vuln, whole),
        fix_versions: fixes_of(vuln),
        details: json::text_field(vuln, "details"@),
        pkg_name: d.name,
        pkg_version: d.version,
        pkg_ecosystem: d.ecosystem,
        is_direct: d.is_direct,
        via: d.via,
        manifest: d.manifest,
    }
}

fn read_aliases(vuln: &Json) -> (r: Vec<String>)
    ensures
        text::views(r@) == aliases_of(vuln@),
{
    let mut out: Vec<String> = Vec::new();
    match json::opt_items(vuln.get("aliases")) {
        None => {},
        Some(v) => {
            let ghost all = json::values(v@);
            proof {
                json::values_index(v@);
            }
            let mut i: usize = 0;
            while i < v.len()
                invariant
                    i <= v@.len(),
                    all == json::values(v@),
                    all.len() == v@.len(),
                    forall|k: int| 0 <= k < v@.len() ==> (#[trigger] all[k]) == json::value(v@[k]),
                    text::views(out@) == texts_in(all.take(i as int)),
                decreases v@.len() - i,
            {
                assert(all.take(i + 1).drop_last() =~= all.take(i as int));
                assert(all.take(i + 1).last() == all[i as int]);
                match &v[i] {
                    Json::Str(s) => {
                        out.push(s.clone());
                    },
                    _ => {},
                }
                i += 1;
            }
            assert(all.take(all.len() as int) =~= all);
        },
    }
    let ghost names = text::views(out@);
    match json::opt_items(vuln.get("upstream")) {
        None => {},
        Some(v) => {
            let ghost all = json::values(v@);
            proof {
                json::values_index(v@);
            }
            let mut i: usize = 0;
            while i < v.len()
                invariant
                    i <= v@.len(),
                    all == json::values(v@),
                    all.len() == v@.len(),
                    forall|k: int| 0 <= k < v@.len() ==> (#[trigger] all[k]) == json::value(v@[k]),
                    text::views(out@) == with_upstream(names, all.take(i as int)),
                decreases v@.len() - i,
            {
                assert(all.take(i + 1).drop_last() =~= all.take(i as int));
                assert(all.take(i + 1).last() == all[i as int]);
                match &v[i] {
                    Json::Str(s) => {
                        if !holds_text(&out, s) {
                            out.push(s.clone());
                        }
                    },
                    _ => {},
                }
                i += 1;
            }
            assert(all.take(all.len() as int) =~= all);
        },
    }
    out
}

fn read_summary(vuln: &Json) -> (r: String)
    ensures
        r@ == summary_of(vuln@),
{
    match json::opt_text(vuln.get("summary")) {
        Some(s) => {
            if text::char_count(&s) > 0 {
                return s;
            }
        },
        None => {},
    }
    let d = vuln.get_text("details");
    let first = match text::str_find(&d, ". ") {
        Some(k) => pieces::str_take(&d, k),
        None => d,
    };
    text::str_prefix(&first, 120)
}

/// What is known of a vulnerability of a package.
pub fn read_vuln(d: &Dep, asked: &str, vuln: &Json, whole: &Vec<Option<u32>>) -> (r: OsvVuln)
    requires
        whole@.len() == score_texts(vuln@).len(),
    ensures
        r@ == vuln_of(d@, asked@, vuln@, whole@),
{
    OsvVuln {
        id: text::opt_or(&json::opt_text(vuln.get("id")), asked),
        aliases: read_aliases(vuln),
        summary: read_summary(vuln),
        severity: extract_osv_severity(vuln, whole),
        fix_versions: extract_fix_versions(vuln),
        details: vuln.get_text("details"),
        pkg_name: d.name.clone(),
        pkg_version: d.version.clone(),
        pkg_ecosystem: d.ecosystem.clone(),
        is_direct: d.is_direct,
        via: text::clone_strings(&d.via),
        manifest: d.manifest.clone(),
    }
}

/// The details that were fetched: the id that was asked for, the reply, and
/// the whole parts of its scores.
pub struct Detail {
    pub id: String,
    pub vuln: Json,
    pub whole: Vec<Option<u32>>,
}

pub struct DetailView {
    pub id: Seq<char>,
    pub vuln: json::JsonView,
    pub whole: Seq<Option<u32>>,
}

pub open spec fn details(v: Seq<Detail>) -> Seq<DetailView> {
    v.map_values(|d: Detail| DetailView { id: d.id@, vuln: d.vuln@, whole: d.whole@ })
}

/// The details that were asked for under an id.
pub open spec fn detail_of(v: Seq<DetailView>, id: Seq<char>, from: int) -> Option<int>
    decreases v.len() - from,
{
    if from < 0 || from >= v.len() {
        None
    } else if v[from].id == id {
        Some(from)
    } else {
        detail_of(v, id, from + 1)
    }
}

/// All vulnerabilities, in the order in which they were found; those without
/// details are left out.
pub open spec fn assembled(
    d: Seq<packages::DepView>,
    h: Seq<(int, Seq<char>)>,
    v: Seq<DetailView>,
) -> Seq<OsvVulnView>
    decreases h.len(),
{
    if h.len() == 0 {
        Seq::empty()
    } else {
        let before = assembled(d, h.drop_last(), v);
        match detail_of(v, h.last().1, 0) {
            Some(k) => before.push(vuln_of(d[h.last().0], h.last().1, v[k].vuln, v[k].whole)),
            None => before,
        }
    }
}

/// Every position names a package, and every detail has one entry for each of
/// its scores.
pub open spec fn can_assemble(
    d: Seq<packages::DepView>,
    h: Seq<(int, Seq<char>)>,
    v: Seq<DetailView>,
) -> bool {
    &&& forall|i: int| 0 <= i < h.len() ==> 0 <= (#[trigger] h[i]).0 < d.len()
    &&& forall|i: int|
        0 <= i < v.len() ==> (#[trigger] v[i]).whole.len() == score_texts(v[i].vuln).len()
}

fn find_detail(v: &Vec<Detail>, id: &str) -> (r: Option<usize>)
    ensures
        text::to_int(r) == detail_of(details(v@), id@, 0),
        r matches Some(k) ==> k < v@.len(),
{
    let ghost all = details(v@);
    let mut i: usize = 0;
    while i < v.len()
        invariant
            i <= v@.len(),
            all == details(v@),
            detail_of(all, id@, 0) == detail_of(all, id@, i as int),
        decreases v@.len() - i,
    {
        assert(all[i as int].id == v@[i as int].id@);
        if text::str_eq(&v[i].id, id) {
            return Some(i);
        }
        i += 1;
    }
    None
}

/// All vulnerabilities of the packages.
pub fn assemble(d: &Vec<Dep>, h: &Vec<(usize, String)>, v: &Vec<Detail>) -> (r: Vec<OsvVuln>)
    requires
        can_assemble(packages::deps(d@), hits(h@), details(v@)),
    ensures
        severity::seen(r@) == assembled(packages::deps(d@), hits(h@), details(v@)),
{
    let ghost deps = packages::deps(d@);
    let ghost all = hits(h@);
    let ghost dets = details(v@);
    let mut out: Vec<OsvVuln> = Vec::new();
    assert(severity::seen(out@) =~= Seq::empty());
    let mut i: usize = 0;
    while i < h.len()
        invariant
            i <= h@.len(),
            deps == packages::deps(d@),
            all == hits(h@),
            dets == details(v@),
            can_assemble(deps, all, dets),
            severity::seen(out@) == assembled(deps, all.take(i as int), dets),
        decreases h@.len() - i,
    {
        assert(all.take(i + 1).drop_last() =~= all.take(i as int));
        assert(all.take(i + 1).last() == all[i as int]);
        assert(all[i as int] == (h@[i as int].0 as int, h@[i as int].1@));
        match find_detail(v, &h[i].1) {
            Some(k) => {
                assert(dets[k as int].vuln == v@[k as int].vuln@);
                assert(dets[k as int].whole == v@[k as int].whole@);
                assert(deps[h@[i as int].0 as int] == d@[h@[i as int].0 as int]@);
                let x = read_vuln(&d[h[i].0], &h[i].1, &v[k].vuln, &v[k].whole);
                proof {
                    severity::seen_push(out@, x);
                }
                out.push(x);
            },
            None => {},
        }
        i += 1;
    }
    assert(all.take(all.len() as int) =~= all);
    out
}

// ---- what the agent is told -------------------------------------------------------------------------

/// The first name that is a CVE, else the id.
pub open spec fn cve_from(aliases: Seq<Seq<char>>, id: Seq<char>, from: int) -> Seq<char>
    decreases aliases.len() - from,
{
    if from < 0 || from >= aliases.len() {
        id
    } else if text::starts_with(aliases[from], "CVE-"@) {
        aliases[from]
    } else {
        cve_from(aliases, id, from + 1)
    }
}

/// The CVE of a vulnerability, or its id.
pub fn cve_of(v: &OsvVuln) -> (r: String)
    ensures
        r@ == cve_from(v@.aliases, v@.id, 0),
{
    let mut i: usize = 0;
    while i < v.aliases.len()
        invariant
            i <= v.aliases@.len(),
            cve_from(v@.aliases, v@.id, 0) == cve_from(v@.aliases, v@.id, i as int),
        decreases v.aliases@.len() - i,
    {
        assert(v@.aliases[i as int] == v.aliases@[i as int]@);
        if text::str_starts_with(&v.aliases[i], "CVE-") {
            return v.aliases[i].clone();
        }
        i += 1;
    }
    v.id.clone()
}

/// The versions with a fix, as the agent is told.
pub open spec fn fix_text(v: OsvVulnView) -> Seq<char> {
    if v.fix_versions.len() == 0 {
        "no fix yet"@
    } else {
        pieces::join(v.fix_versions, ", "@)
    }
}

fn fix_string(v: &OsvVuln) -> (r: String)
    ensures
        r@ == fix_text(v@),
{
    if v.fix_versions.len() == 0 {
        "no fix yet".to_owned()
    } else {
        pieces::str_join(&v.fix_versions, ", ")
    }
}

/// How a vulnerability is described to the agent: with the way in which its
/// package came in, or with its ecosystem.
pub open spec fn vuln_text(number: nat, v: OsvVulnView, container: bool) -> Seq<char> {
    "  ["@ + digits::dec(number) + "] "@ + cve_from(v.aliases, v.id, 0) + " | "@ + text::uppercase(
        v.severity,
    ) + " | "@ + v.pkg_name + "@"@ + v.pkg_version + (if container {
        " ("@ + v.pkg_ecosystem + ")"@
    } else if v.via.len() == 0 {
        " | direct dependency"@
    } else {
        " | transitive via: "@ + pieces::join(v.via, " -> "@)
    }) + "\n       Summary: "@ + v.summary + "\n       Fix: "@ + fix_text(v)
}

fn vuln_string(number: usize, v: &OsvVuln, container: bool) -> (r: String)
    ensures
        r@ == vuln_text(number as nat, v@, container),
{
    let mut s = "  [".to_owned();
    let n = digits::usize_to_string(number);
    s.push_str(&n);
    s.push_str("] ");
    let c = cve_of(v);
    s.push_str(&c);
    s.push_str(" | ");
    let up = text::to_uppercase(&v.severity);
    s.push_str(&up);
    s.push_str(" | ");
    s.push_str(&v.pkg_name);
    s.push_str("@");
    s.push_str(&v.pkg_version);
    if container {
        let mut e = " (".to_owned();
        e.push_str(&v.pkg_ecosystem);
        e.push_str(")");
        s.push_str(&e);
    } else if v.via.len() == 0 {
        s.push_str(" | direct dependency");
    } else {
        let mut e = " | transitive via: ".to_owned();
        let j = pieces::str_join(&v.via, " -> ");
        e.push_str(&j);
        s.push_str(&e);
    }
    s.push_str("\n       Summary: ");
    s.push_str(&v.summary);
    s.push_str("\n       Fix: ");
    let f = fix_string(v);
    s.push_str(&f);
    s
}

/// All vulnerabilities as the agent is told of them.
pub open spec fn vuln_list(v: Seq<OsvVulnView>, container: bool) -> Seq<char> {
    pieces::join(
        v.map(|i: int, x: OsvVulnView| vuln_text((i + 1) as nat, x, container)),
        "\n\n"@,
    )
}

fn vuln_list_string(v: &Vec<OsvVuln>, container: bool) -> (r: String)
    ensures
        r@ == vuln_list(severity::seen(v@), container),
{
    let ghost all = severity::seen(v@);
    let ghost want = all.map(|i: int, x: OsvVulnView| vuln_text((i + 1) as nat, x, container));
    let mut out: Vec<String> = Vec::new();
    assert(want.take(0) =~= Seq::empty());
    let mut i: usize = 0;
    while i < v.len()
        invariant
            i <= v@.len(),
            all == severity::seen(v@),
            want == all.map(
                |i: int, x: OsvVulnView| vuln_text((i + 1) as nat, x, container),
            ),
            text::views(out@) == want.take(i as int),
        decreases v@.len() - i,
    {
        assert(all[i as int] == v@[i as int]@);
        out.push(vuln_string(i + 1, &v[i], container));
        assert(want.take(i + 1) =~= want.take(i as int).push(want[i as int]));
        i += 1;
    }
    assert(want.take(want.len() as int) =~= want);
    pieces::str_join(&out, "\n\n")
}

/// What the agent is asked about the vulnerabilities of a project.
pub fn build_sca_prompt(target: &str, v: &Vec<OsvVuln>) -> (r: String)
    ensures
        r@ == prompts::sca_request(target@, vuln_list(severity::seen(v@), false)),
{
    let list = vuln_list_string(v, false);
    prompts::sca_prompt(target, &list)
}

/// What the agent is asked about the vulnerabilities of a container.
pub fn build_container_prompt(image: &str, os_label: &str, v: &Vec<OsvVuln>) -> (r: String)
    ensures
        r@ == prompts::container_request(
            image@,
            os_label@,
            vuln_list(severity::seen(v@), true),
        ),
{
    let list = vuln_list_string(v, true);
    prompts::container_prompt(image, os_label, &list)
}

// ---- findings without the agent ------------------------------------------------------------------------

/// A vulnerability as a finding whose reach nobody has looked into; its
/// description is cut to `described` characters.
pub open spec fn unanalyzed(v: OsvVulnView, described: nat) -> findings::ScaFindingView {
    findings::ScaFindingView {
        severity: v.severity,
        title: v.summary,
        cve_id: cve_from(v.aliases, v.id, 0),
        package: v.pkg_name,
        version: v.pkg_version,
        is_direct: v.is_direct,
        via: v.via,
        fix_version: if v.fix_versions.len() > 0 {
            v.fix_versions[0]
        } else {
            Seq::empty()
        },
        reachable: true,
        reachability_confidence: "not_analyzed"@,
        description: text::prefix(v.details, described),
        ai_reasoning: Seq::empty(),
    }
}

fn unanalyzed_finding(v: &OsvVuln, described: usize) -> (r: ScaFinding)
    ensures
        r@ == unanalyzed(v@, described as nat),
{
    let fix = if v.fix_versions.len() > 0 {
        assert(v@.fix_versions[0] == v.fix_versions@[0]@);
        v.fix_versions[0].clone()
    } else {
        String::new()
    };
    ScaFinding {
        severity: v.severity.clone(),
        title: v.summary.clone(),
        cve_id: cve_of(v),
        package: v.pkg_name.clone(),
        version: v.pkg_version.clone(),
        is_direct: v.is_direct,
        via: text::clone_strings(&v.via),
        fix_version: fix,
        reachable: true,
        reachability_confidence: "not_analyzed".to_owned(),
        description: text::str_prefix(&v.details, described),
        ai_reasoning: String::new(),
    }
}

/// The vulnerabilities as findings whose reach nobody has looked into.
pub fn unanalyzed_findings(v: &Vec<OsvVuln>, described: usize) -> (r: Vec<ScaFinding>)
    ensures
        severity::seen(r@) == severity::seen(v@).map_values(
            |x: OsvVulnView| unanalyzed(x, described as nat),
        ),
{
    let ghost all = severity::seen(v@);
    let ghost want = all.map_values(|x: OsvVulnView| unanalyzed(x, described as nat));
    let mut out: Vec<ScaFinding> = Vec::new();
    assert(want.take(0) =~= Seq::empty());
    assert(severity::seen(out@) =~= Seq::empty());
    let mut i: usize = 0;
    while i < v.len()
        invariant
            i <= v@.len(),
            all == severity::seen(v@),
            want == all.map_values(|x: OsvVulnView| unanalyzed(x, described as nat)),
            severity::seen(out@) == want.take(i as int),
        decreases v@.len() - i,
    {
        assert(all[i as int] == v@[i as int]@);
        let f = unanalyzed_finding(&v[i], described);
        proof {
            severity::seen_push(out@, f);
        }
        out.push(f);
        assert(want.take(i + 1) =~= want.take(i as int).push(want[i as int]));
        i += 1;
    }
    assert(want.take(want.len() as int) =~= want);
    out
}

/// A finding of the plain form as one of a dependency that is taken to be
/// reached.
pub open spec fn from_plain(f: findings::SastFindingView) -> findings::ScaFindingView {
    findings::ScaFindingView {
        severity: f.severity,
        title: f.title,
        cve_id: Seq::empty(),
        package: Seq::empty(),
        version: Seq::empty(),
        is_direct: true,
        via: Seq::empty(),
        fix_version: Seq::empty(),
        reachable: true,
        reachability_confidence: "confirmed_reachable"@,
        description: f.description,
        ai_reasoning: Seq::empty(),
    }
}

/// Findings of the plain form as those of dependencies.
pub fn plain_findings(v: &Vec<findings::SastFinding>) -> (r: Vec<ScaFinding>)
    ensures
        severity::seen(r@) == severity::seen(v@).map_values(
            |f: findings::SastFindingView| from_plain(f),
        ),
{
    let ghost all = severity::seen(v@);
    let ghost want = all.map_values(|f: findings::SastFindingView| from_plain(f));
    let mut out: Vec<ScaFinding> = Vec::new();
    assert(want.take(0) =~= Seq::empty());
    assert(severity::seen(out@) =~= Seq::empty());
    let mut i: usize = 0;
    while i < v.len()
        invariant
            i <= v@.len(),
            all == severity::seen(v@),
            want == all.map_values(|f: findings::SastFindingView| from_plain(f)),
            severity::seen(out@) == want.take(i as int),
        decreases v@.len() - i,
    {
        assert(all[i as int] == v@[i as int]@);
        let f = ScaFinding {
            severity: v[i].severity.clone(),
            title: v[i].title.clone(),
            cve_id: String::new(),
            package: String::new(),
            version: String::new(),
            is_direct: true,
            via: Vec::new(),
            fix_version: String::new(),
            reachable: true,
            reachability_confidence: "confirmed_reachable".to_owned(),
            description: v[i].description.clone(),
            ai_reasoning: String::new(),
        };
        proof {
            severity::seen_push(out@, f);
        }
        out.push(f);
        assert(want.take(i + 1) =~= want.take(i as int).push(want[i as int]));
        i += 1;
    }
    assert(want.take(want.len() as int) =~= want);
    out
}

/// A severity is always one of the four labels, whatever a reply says.
pub proof fn severity_is_a_label(vuln: json::JsonView, whole: Seq<Option<u32>>)
    ensures
        ({
            let s = vuln_severity(vuln, whole);
            s == "critical"@ || s == "high"@ || s == "medium"@ || s == "low"@
        }),
{
    scored_is_a_label(score_texts(vuln), whole, 0);
    urgent_is_a_label(json::items(json::field(vuln, "affected"@)), 0);
}

proof fn scored_is_a_label(t: Seq<Seq<char>>, whole: Seq<Option<u32>>, from: int)
    ensures
        scored(t, whole, from) matches Some(s) ==> s == "critical"@ || s == "high"@ || s
            == "medium"@ || s == "low"@,
    decreases t.len() - from,
{
    if 0 <= from < t.len() {
        scored_is_a_label(t, whole, from + 1);
    }
}

proof fn urgent_is_a_label(v: Seq<json::JsonView>, from: int)
    ensures
        urgent(v, from) matches Some(s) ==> s == "high"@ || s == "medium"@ || s == "low"@,
    decreases v.len() - from,
{
    if 0 <= from < v.len() {
        urgent_is_a_label(v, from + 1);
    }
}

} // verus!
