//! Findings: how severe they are, which of them fail a scan, and how they are
//! written down.

use vstd::prelude::*;
use crate::digits;
use crate::findings;
use crate::findings::{DastFindingView, IacFindingView, SastFindingView, ScaFindingView};
use crate::json;
use crate::json::JsonView;
use crate::laws::texts;
use crate::pieces;
use crate::report;
use crate::sarif;
use crate::severity;
use crate::severity::Rated;
use crate::text;
use crate::verdict;
use crate::verdict::DeliveryView;

verus! {

broadcast use vstd::seq::group_seq_axioms;

/// An object that has the value `v` under `key`.
pub open spec fn holds(o: JsonView, key: Seq<char>, v: JsonView) -> bool {
    o matches JsonView::Obj(e) && e.contains((key, v))
}

/// An object that has the text `t` under `key`.
pub open spec fn says(o: JsonView, key: Seq<char>, t: Seq<char>) -> bool {
    holds(o, key, JsonView::Str(t))
}

proof fn severity_words()
    ensures
        "critical"@.len() == 8,
        "high"@.len() == 4,
        "medium"@.len() == 6,
        "low"@.len() == 3,
        "info"@.len() == 4,
        "info"@ != "high"@,
{
    reveal_strlit("critical");
    reveal_strlit("high");
    reveal_strlit("medium");
    reveal_strlit("low");
    reveal_strlit("info");
    assert("info"@[0] == 'i' && "high"@[0] == 'h');
}

/// Severities rank from critical down to low, whatever their case; any other word
/// ranks below them all.
pub proof fn severities_rank(l: Seq<char>)
    ensures
        text::lowercase(l) == "critical"@ ==> severity::level(l) == 4,
        text::lowercase(l) == "high"@ ==> severity::level(l) == 3,
        text::lowercase(l) == "medium"@ ==> severity::level(l) == 2,
        text::lowercase(l) == "low"@ ==> severity::level(l) == 1,
        text::lowercase(l) != "critical"@ && text::lowercase(l) != "high"@ && text::lowercase(l)
            != "medium"@ && text::lowercase(l) != "low"@ ==> severity::level(l) == 0,
{
    severity_words();
}

/// The colours of the severities: red for the two highest, the first in bold,
/// yellow for medium, cyan for low, and none for the rest.
pub proof fn severities_have_colours()
    ensures
        severity::level_color(4) == "\x1b[1;31m"@,
        severity::level_color(3) == "\x1b[31m"@,
        severity::level_color(2) == "\x1b[33m"@,
        severity::level_color(1) == "\x1b[36m"@,
        severity::level_color(0) == "\x1b[0m"@,
{
}

/// The findings that are at least so severe are kept, in their order, and the
/// others are not.
pub proof fn severe_ones_are_kept<T: Rated>(v: Seq<T::V>, least: u8, n: int, x: T::V)
    requires
        0 <= n <= v.len(),
    ensures
        severity::at_least::<T>(v, least, n).contains(x) <==> v.take(n).contains(x)
            && severity::level(T::label(x)) >= least,
        severity::at_least::<T>(v, least, n).len() <= n,
    decreases n,
{
    let r = severity::at_least::<T>(v, least, n);
    if n > 0 {
        severe_ones_are_kept::<T>(v, least, n - 1, x);
        let q = severity::at_least::<T>(v, least, n - 1);
        let y = v[n - 1];
        let t = v.take(n);
        let u = v.take(n - 1);
        assert(t =~= u.push(y));
        if u.contains(x) {
            let k = choose|k: int| 0 <= k < u.len() && u[k] == x;
            assert(t[k] == x);
        }
        if t.contains(x) {
            let k = choose|k: int| 0 <= k < t.len() && t[k] == x;
            if k < n - 1 {
                assert(u[k] == x);
            }
        }
        assert(t[n - 1] == y);
        if severity::level(T::label(y)) >= least {
            if q.contains(x) {
                let k = choose|k: int| 0 <= k < q.len() && q[k] == x;
                assert(r[k] == x);
            }
            if x == y {
                assert(r[q.len() as int] == x);
            }
            if r.contains(x) {
                let k = choose|k: int| 0 <= k < r.len() && r[k] == x;
                if k < q.len() {
                    assert(q[k] == x);
                }
            }
        }
    }
}

/// A scan fails where something is at least as severe as the bar: it says how
/// many findings are, of which kind of scan, and at which bar. Without a bar it
/// never fails.
pub proof fn scans_fail_at_their_bar<T: Rated>(v: Seq<T::V>, bar: Seq<char>, kind: Seq<char>, k: int)
    requires
        0 <= k < v.len(),
        severity::level(T::label(v[k])) >= severity::level(bar),
    ensures
        severity::gate_text::<T>(v, None, kind) is None,
        ({
            let n = severity::blocking::<T>(v, bar);
            &&& 0 < n <= v.len()
            &&& severity::gate_text::<T>(v, Some(bar), kind) == Some(
                digits::dec(n) + kind + " finding(s) at or above '"@ + bar + "' severity"@,
            )
        }),
{
    counted::<T>(v, severity::level(bar), v.len() as int, k);
}

proof fn counted<T: Rated>(v: Seq<T::V>, least: u8, n: int, k: int)
    requires
        0 <= n <= v.len(),
    ensures
        severity::count_from::<T>(v, least, n) <= n,
        0 <= k < n && severity::level(T::label(v[k])) >= least ==> severity::count_from::<T>(
            v,
            least,
            n,
        ) > 0,
    decreases n,
{
    if n > 0 {
        counted::<T>(v, least, n - 1, k);
    }
}

/// What a scan writes goes to the file that was named, or is printed where none
/// was; an answer that holds no findings is saved as it is where a file was named,
/// and nothing is written where nothing is to be said.
pub proof fn results_go_where_they_are_wanted(c: Seq<char>, p: Seq<char>, raw: Seq<char>)
    requires
        c.len() > 0,
    ensures
        verdict::delivered(c, Some(p), Some(raw)) == (DeliveryView::File {
            path: p,
            content: c,
            note: "results saved → "@ + p,
        }),
        verdict::delivered(c, None, Some(raw)) == DeliveryView::Print(c),
        verdict::delivered(Seq::empty(), Some(p), Some(raw)) == (DeliveryView::File {
            path: p,
            content: raw,
            note: "raw output saved → "@ + p,
        }),
        verdict::delivered(Seq::empty(), Some(p), None) == DeliveryView::Nothing,
        verdict::delivered(Seq::empty(), None, Some(raw)) == DeliveryView::Nothing,
{
}

/// Results are written as JSON or SARIF where one of them is asked for, and not
/// at all otherwise.
pub proof fn formats_are_written(report: JsonView, sarif: JsonView, other: Seq<char>)
    requires
        other != "json"@ && other != "sarif"@,
    ensures
        sarif::scan_output("json"@, report, sarif) == json::pretty_text(json::normal(report)),
        sarif::scan_output("sarif"@, report, sarif) == json::pretty_text(json::normal(sarif)),
        sarif::scan_output(other, report, sarif).len() == 0,
{
    reveal_strlit("json");
    reveal_strlit("sarif");
    assert("json"@.len() == 4 && "sarif"@.len() == 5);
}

/// The levels of SARIF: an error for critical and high, a warning for medium, a
/// note for low.
pub proof fn levels_follow_the_severity(l: Seq<char>, strict: bool)
    ensures
        text::lowercase(l) == "critical"@ || text::lowercase(l) == "high"@ ==> sarif::sarif_level(
            l,
            strict,
        ) == "error"@,
        text::lowercase(l) == "medium"@ ==> sarif::sarif_level(l, strict) == "warning"@,
        text::lowercase(l) == "low"@ ==> sarif::sarif_level(l, strict) == "note"@,
        text::lowercase(l) == "info"@ && strict ==> sarif::sarif_level(l, strict) == "none"@,
        text::lowercase(l) == "info"@ && !strict ==> sarif::sarif_level(l, strict) == "note"@,
{
    severity_words();
}

/// The rules of a scan are numbered from one, with three digits at least.
pub proof fn rules_are_numbered(prefix: Seq<char>, i: nat)
    ensures
        i < 9 ==> sarif::rule_id(prefix, i) == prefix + (seq!['0', '0'] + digits::dec(i + 1)),
        9 <= i < 99 ==> sarif::rule_id(prefix, i) == prefix + (seq!['0'] + digits::dec(i + 1)),
        99 <= i < 999 ==> sarif::rule_id(prefix, i) == prefix + digits::dec(i + 1),
{
    reveal_with_fuel(digits::dec, 4);
    if i < 9 {
        assert(digits::dec_padded(i + 1, 3) =~= seq!['0', '0'] + digits::dec(i + 1));
    } else if i < 99 {
        assert(digits::dec(i + 1).len() == 2);
        assert(digits::dec_padded(i + 1, 3) =~= seq!['0'] + digits::dec(i + 1));
    } else if i < 999 {
        assert(digits::dec(i + 1).len() == 3);
    }
}

/// A place in SARIF names the file, and the line where one is known.
pub proof fn places_name_file_and_line(uri: Seq<char>, relative: bool, n: u64)
    ensures
        ({
            let p = sarif::locations(uri, relative, Some(n));
            p matches JsonView::Arr(a) && a.len() == 1 && (a[0] matches JsonView::Obj(o) && o.len()
                == 1 && o[0].0 == "physicalLocation"@ && (o[0].1 matches JsonView::Obj(f)
                && f.len() == 2 && f[0].0 == "artifactLocation"@ && says(f[0].1, "uri"@, uri)
                && f[1].0 == "region"@ && holds(
                f[1].1,
                "startLine"@,
                JsonView::Num(digits::dec(n as nat)),
            )))
        }),
        ({
            let p = sarif::locations(uri, relative, None);
            p matches JsonView::Arr(a) && a.len() == 1 && (a[0] matches JsonView::Obj(o) && o.len()
                == 1 && (o[0].1 matches JsonView::Obj(f) && f.len() == 1 && says(
                f[0].1,
                "uri"@,
                uri,
            )))
        }),
{
    let a = sarif::artifact(uri, relative);
    match a {
        JsonView::Obj(e) => {
            assert(e[0] == ("uri"@, JsonView::Str(uri)));
        },
        _ => {},
    }
    let r = seq![("startLine"@, json::number(n as nat))];
    assert(r[0] == ("startLine"@, JsonView::Num(digits::dec(n as nat))));
}

/// A finding of a code scan is a result of the rule with its number, at the level
/// of its severity, with its title and description, at its file and line.
pub proof fn code_findings_are_written(i: nat, f: SastFindingView)
    ensures
        ({
            let r = sarif::sast_result(i, f);
            let q = sarif::sast_rule(i, f);
            &&& says(r, "ruleId"@, sarif::rule_id("STROBES-SAST-"@, i))
            &&& says(q, "id"@, sarif::rule_id("STROBES-SAST-"@, i))
            &&& says(r, "level"@, sarif::sarif_level(f.severity, true))
            &&& holds(r, "locations"@, sarif::locations(f.file, true, f.line))
            &&& exists|m: JsonView|
                #[trigger] says(m, "text"@, f.title + "\n\n"@ + f.description) && holds(r, "message"@, m)
            &&& exists|m: JsonView| #[trigger] says(m, "text"@, f.title) && holds(q, "shortDescription"@, m)
        }),
{
    let r = sarif::sast_result(i, f);
    let q = sarif::sast_rule(i, f);
    let m = sarif::one_text("text"@, f.title + "\n\n"@ + f.description);
    let d = sarif::one_text("text"@, f.title);
    one_text_says("text"@, f.title + "\n\n"@ + f.description);
    one_text_says("text"@, f.title);
    match r {
        JsonView::Obj(e) => {
            assert(e[0] == ("ruleId"@, JsonView::Str(sarif::rule_id("STROBES-SAST-"@, i))));
            assert(e[1] == ("level"@, JsonView::Str(sarif::sarif_level(f.severity, true))));
            assert(e[2] == ("message"@, m));
            assert(e[3] == ("locations"@, sarif::locations(f.file, true, f.line)));
        },
        _ => {},
    }
    match q {
        JsonView::Obj(e) => {
            assert(e[0] == ("id"@, JsonView::Str(sarif::rule_id("STROBES-SAST-"@, i))));
            assert(e[1] == ("shortDescription"@, d));
        },
        _ => {},
    }
    assert(holds(r, "message"@, m));
    assert(holds(q, "shortDescription"@, d));
}

proof fn one_text_says(key: Seq<char>, t: Seq<char>)
    ensures
        says(sarif::one_text(key, t), key, t),
{
    let e = seq![(key, JsonView::Str(t))];
    assert(e[0] == (key, JsonView::Str(t)));
}

/// A finding of a package scan is a result that names the advisory, the package
/// and its version, the version that fixes it and how it is reached.
pub proof fn package_findings_are_written(i: nat, f: ScaFindingView)
    ensures
        ({
            let r = sarif::sca_result(i, f);
            let q = sarif::sca_rule(i, f);
            &&& says(r, "ruleId"@, sarif::rule_id("STROBES-SCA-"@, i))
            &&& says(q, "id"@, sarif::rule_id("STROBES-SCA-"@, i))
            &&& says(r, "level"@, sarif::sarif_level(f.severity, false))
            &&& holds(r, "locations"@, sarif::locations(f.package + "@"@ + f.version, false, None))
            &&& r matches JsonView::Obj(e) && {
                let p = e[4].1;
                &&& e.len() == 5 && e[4].0 == "properties"@
                &&& says(p, "severity"@, f.severity)
                &&& says(p, "package"@, f.package)
                &&& says(p, "version"@, f.version)
                &&& says(p, "fix_version"@, f.fix_version)
                &&& holds(p, "reachable"@, JsonView::Bool(f.reachable))
                &&& says(p, "reachability"@, f.reachability_confidence)
                &&& e[2].0 == "message"@ && says(
                    e[2].1,
                    "text"@,
                    f.cve_id + ": "@ + f.title + "\n\n"@ + f.description,
                )
            }
            &&& q matches JsonView::Obj(e) && e[1].0 == "shortDescription"@ && says(
                e[1].1,
                "text"@,
                f.cve_id + " in "@ + f.package,
            )
        }),
{
    let r = sarif::sca_result(i, f);
    let q = sarif::sca_rule(i, f);
    one_text_says("text"@, f.cve_id + ": "@ + f.title + "\n\n"@ + f.description);
    one_text_says("text"@, f.cve_id + " in "@ + f.package);
    match r {
        JsonView::Obj(e) => {
            assert(e[0] == ("ruleId"@, JsonView::Str(sarif::rule_id("STROBES-SCA-"@, i))));
            assert(e[1] == ("level"@, JsonView::Str(sarif::sarif_level(f.severity, false))));
            assert(e[3] == (
                "locations"@,
                sarif::locations(f.package + "@"@ + f.version, false, None),
            ));
            match e[4].1 {
                JsonView::Obj(p) => {
                    assert(p[0] == ("severity"@, JsonView::Str(f.severity)));
                    assert(p[1] == ("package"@, JsonView::Str(f.package)));
                    assert(p[2] == ("version"@, JsonView::Str(f.version)));
                    assert(p[3] == ("fix_version"@, JsonView::Str(f.fix_version)));
                    assert(p[4] == ("reachable"@, JsonView::Bool(f.reachable)));
                    assert(p[5] == ("reachability"@, JsonView::Str(f.reachability_confidence)));
                },
                _ => {},
            }
        },
        _ => {},
    }
    match q {
        JsonView::Obj(e) => {
            assert(e[0] == ("id"@, JsonView::Str(sarif::rule_id("STROBES-SCA-"@, i))));
        },
        _ => {},
    }
}

/// A finding of an infrastructure scan is a result at its file and line (the
/// first, where none is known) that names the resource and its kind.
pub proof fn infrastructure_findings_are_written(i: nat, f: IacFindingView, n: u64)
    ensures
        ({
            let r = sarif::iac_result(i, f);
            &&& says(r, "ruleId"@, sarif::rule_id("STROBES-IAC-"@, i))
            &&& says(sarif::iac_rule(i, f), "id"@, sarif::rule_id("STROBES-IAC-"@, i))
            &&& says(r, "level"@, sarif::sarif_level(f.severity, false))
            &&& f.line is None ==> holds(
                r,
                "locations"@,
                sarif::locations(f.file, false, Some(1u64)),
            )
            &&& f.line == Some(n) ==> holds(
                r,
                "locations"@,
                sarif::locations(f.file, false, Some(n)),
            )
            &&& r matches JsonView::Obj(e) && {
                &&& e.len() == 5 && e[4].0 == "properties"@
                &&& says(e[4].1, "resource"@, f.resource)
                &&& says(e[4].1, "iac_type"@, f.iac_type)
                &&& e[2].0 == "message"@ && says(e[2].1, "text"@, f.description + "\n\n"@ + f.fix)
            }
        }),
{
    let r = sarif::iac_result(i, f);
    one_text_says("text"@, f.description + "\n\n"@ + f.fix);
    match r {
        JsonView::Obj(e) => {
            assert(e[0] == ("ruleId"@, JsonView::Str(sarif::rule_id("STROBES-IAC-"@, i))));
            assert(e[1] == ("level"@, JsonView::Str(sarif::sarif_level(f.severity, false))));
            assert(e[3].0 == "locations"@);
            match e[4].1 {
                JsonView::Obj(p) => {
                    assert(p[0] == ("resource"@, JsonView::Str(f.resource)));
                    assert(p[1] == ("iac_type"@, JsonView::Str(f.iac_type)));
                },
                _ => {},
            }
        },
        _ => {},
    }
    match sarif::iac_rule(i, f) {
        JsonView::Obj(e) => {
            assert(e[0] == ("id"@, JsonView::Str(sarif::rule_id("STROBES-IAC-"@, i))));
        },
        _ => {},
    }
}

/// A finding of a scan of a running application is a result at its address that
/// names the parameter, the method and the evidence.
pub proof fn application_findings_are_written(i: nat, f: DastFindingView)
    ensures
        ({
            let r = sarif::dast_result(i, f);
            &&& says(r, "ruleId"@, sarif::rule_id("STROBES-DAST-"@, i))
            &&& says(sarif::dast_rule(i, f), "id"@, sarif::rule_id("STROBES-DAST-"@, i))
            &&& says(r, "level"@, sarif::sarif_level(f.severity, false))
            &&& holds(r, "locations"@, sarif::locations(f.url, false, None))
            &&& r matches JsonView::Obj(e) && {
                &&& e.len() == 5 && e[4].0 == "properties"@
                &&& says(e[4].1, "severity"@, f.severity)
                &&& says(e[4].1, "parameter"@, f.parameter)
                &&& says(e[4].1, "method"@, f.method)
                &&& says(e[4].1, "evidence"@, f.evidence)
                &&& e[2].0 == "message"@ && says(
                    e[2].1,
                    "text"@,
                    f.title + "\n\n"@ + f.description,
                )
            }
        }),
{
    let r = sarif::dast_result(i, f);
    one_text_says("text"@, f.title + "\n\n"@ + f.description);
    match r {
        JsonView::Obj(e) => {
            assert(e[0] == ("ruleId"@, JsonView::Str(sarif::rule_id("STROBES-DAST-"@, i))));
            assert(e[1] == ("level"@, JsonView::Str(sarif::sarif_level(f.severity, false))));
            assert(e[3] == ("locations"@, sarif::locations(f.url, false, None)));
            match e[4].1 {
                JsonView::Obj(p) => {
                    assert(p[0] == ("severity"@, JsonView::Str(f.severity)));
                    assert(p[1] == ("parameter"@, JsonView::Str(f.parameter)));
                    assert(p[2] == ("method"@, JsonView::Str(f.method)));
                    assert(p[3] == ("evidence"@, JsonView::Str(f.evidence)));
                },
                _ => {},
            }
        },
        _ => {},
    }
    match sarif::dast_rule(i, f) {
        JsonView::Obj(e) => {
            assert(e[0] == ("id"@, JsonView::Str(sarif::rule_id("STROBES-DAST-"@, i))));
        },
        _ => {},
    }
}

/// A SARIF document has one run: the tool with its rules, the results, and what
/// the run was of.
pub proof fn documents_hold_rules_and_results(
    tool: Seq<char>,
    rules: Seq<JsonView>,
    results: Seq<JsonView>,
    id: Seq<char>,
)
    ensures
        ({
            let d = sarif::document(tool, rules, results, id);
            &&& says(d, "version"@, "2.1.0"@)
            &&& d matches JsonView::Obj(e) && e.len() == 3 && e[2].0 == "runs"@ && (
            e[2].1 matches JsonView::Arr(runs) && runs.len() == 1 && holds(
                runs[0],
                "results"@,
                JsonView::Arr(results),
            ) && (runs[0] matches JsonView::Obj(r) && r.len() == 3 && r[2].0
                == "automationDetails"@ && says(r[2].1, "id"@, id) && r[0].0 == "tool"@ && (
            r[0].1 matches JsonView::Obj(t) && t.len() == 1 && t[0].0 == "driver"@ && says(
                t[0].1,
                "name"@,
                tool,
            ) && holds(t[0].1, "rules"@, JsonView::Arr(rules)))))
        }),
{
    one_text_says("id"@, id);
    match sarif::document(tool, rules, results, id) {
        JsonView::Obj(e) => {
            assert(e[1] == ("version"@, JsonView::Str("2.1.0"@)));
            match e[2].1 {
                JsonView::Arr(runs) => {
                    match runs[0] {
                        JsonView::Obj(r) => {
                            assert(r[1] == ("results"@, JsonView::Arr(results)));
                            match r[0].1 {
                                JsonView::Obj(t) => {
                                    match t[0].1 {
                                        JsonView::Obj(g) => {
                                            assert(g[0] == ("name"@, JsonView::Str(tool)));
                                            assert(g[3] == ("rules"@, JsonView::Arr(rules)));
                                        },
                                        _ => {},
                                    }
                                },
                                _ => {},
                            }
                        },
                        _ => {},
                    }
                },
                _ => {},
            }
        },
        _ => {},
    }
}

/// Each finding is written once and in order: the k-th result and the k-th rule
/// are those of the k-th finding.
pub proof fn each_finding_is_written_once(
    a: Seq<SastFindingView>,
    b: Seq<ScaFindingView>,
    c: Seq<IacFindingView>,
    d: Seq<DastFindingView>,
    k: int,
)
    ensures
        sarif::sast_results(a).len() == a.len() && sarif::sast_rules(a).len() == a.len(),
        sarif::sca_results(b).len() == b.len() && sarif::sca_rules(b).len() == b.len(),
        sarif::iac_results(c).len() == c.len() && sarif::iac_rules(c).len() == c.len(),
        sarif::dast_results(d).len() == d.len() && sarif::dast_rules(d).len() == d.len(),
        0 <= k < a.len() ==> sarif::sast_results(a)[k] == sarif::sast_result(k as nat, a[k]),
        0 <= k < b.len() ==> sarif::sca_results(b)[k] == sarif::sca_result(k as nat, b[k]),
        0 <= k < c.len() ==> sarif::iac_results(c)[k] == sarif::iac_result(k as nat, c[k]),
        0 <= k < d.len() ==> sarif::dast_results(d)[k] == sarif::dast_result(k as nat, d[k]),
        0 <= k < a.len() ==> sarif::sast_rules(a)[k] == sarif::sast_rule(k as nat, a[k]),
        0 <= k < b.len() ==> sarif::sca_rules(b)[k] == sarif::sca_rule(k as nat, b[k]),
        0 <= k < c.len() ==> sarif::iac_rules(c)[k] == sarif::iac_rule(k as nat, c[k]),
        0 <= k < d.len() ==> sarif::dast_rules(d)[k] == sarif::dast_rule(k as nat, d[k]),
{
}

/// The record of a finding has its fields under their names.
pub proof fn records_hold_their_fields(
    a: SastFindingView,
    b: ScaFindingView,
    c: IacFindingView,
    d: DastFindingView,
    n: u64,
)
    ensures
        ({
            let r = findings::sast_record(a);
            &&& says(r, "severity"@, a.severity) && says(r, "title"@, a.title) && says(
                r,
                "file"@,
                a.file,
            )
            &&& says(r, "description"@, a.description) && says(r, "fix"@, a.fix)
            &&& a.line == Some(n) ==> holds(r, "line"@, JsonView::Num(digits::dec(n as nat)))
            &&& a.line is None ==> holds(r, "line"@, JsonView::Null)
        }),
        ({
            let r = findings::sca_record(b);
            &&& says(r, "severity"@, b.severity) && says(r, "title"@, b.title) && says(
                r,
                "cve_id"@,
                b.cve_id,
            )
            &&& says(r, "package"@, b.package) && says(r, "version"@, b.version)
            &&& says(r, "fix_version"@, b.fix_version) && says(r, "description"@, b.description)
            &&& holds(r, "is_direct"@, JsonView::Bool(b.is_direct))
            &&& holds(r, "reachable"@, JsonView::Bool(b.reachable))
            &&& says(r, "reachability_confidence"@, b.reachability_confidence)
            &&& says(r, "ai_reasoning"@, b.ai_reasoning)
        }),
        ({
            let r = findings::iac_record(c);
            &&& says(r, "severity"@, c.severity) && says(r, "title"@, c.title) && says(
                r,
                "file"@,
                c.file,
            )
            &&& says(r, "resource"@, c.resource) && says(r, "iac_type"@, c.iac_type)
            &&& says(r, "description"@, c.description) && says(r, "fix"@, c.fix)
        }),
        ({
            let r = findings::dast_record(d);
            &&& says(r, "severity"@, d.severity) && says(r, "title"@, d.title) && says(
                r,
                "url"@,
                d.url,
            )
            &&& says(r, "parameter"@, d.parameter) && says(r, "method"@, d.method)
            &&& says(r, "request"@, d.request) && says(r, "evidence"@, d.evidence)
            &&& says(r, "description"@, d.description) && says(r, "fix"@, d.fix)
        }),
{
    sast_fields(a, n);
    sca_fields(b);
    iac_fields(c);
    dast_fields(d);
}

proof fn sast_fields(a: SastFindingView, n: u64)
    ensures
        ({
            let r = findings::sast_record(a);
            &&& says(r, "severity"@, a.severity) && says(r, "title"@, a.title) && says(
                r,
                "file"@,
                a.file,
            )
            &&& says(r, "description"@, a.description) && says(r, "fix"@, a.fix)
            &&& a.line == Some(n) ==> holds(r, "line"@, JsonView::Num(digits::dec(n as nat)))
            &&& a.line is None ==> holds(r, "line"@, JsonView::Null)
        }),
{
    match findings::sast_record(a) {
        JsonView::Obj(e) => {
            assert(e[0] == ("severity"@, JsonView::Str(a.severity)));
            assert(e[1] == ("title"@, JsonView::Str(a.title)));
            assert(e[2] == ("file"@, JsonView::Str(a.file)));
            assert(e[3].0 == "line"@);
            assert(e.contains(e[3]));
            assert(e[4] == ("description"@, JsonView::Str(a.description)));
            assert(e[5] == ("fix"@, JsonView::Str(a.fix)));
        },
        _ => {},
    }
}

proof fn sca_fields(b: ScaFindingView)
    ensures
        ({
            let r = findings::sca_record(b);
            &&& says(r, "severity"@, b.severity) && says(r, "title"@, b.title) && says(
                r,
                "cve_id"@,
                b.cve_id,
            )
            &&& says(r, "package"@, b.package) && says(r, "version"@, b.version)
            &&& says(r, "fix_version"@, b.fix_version) && says(r, "description"@, b.description)
            &&& holds(r, "is_direct"@, JsonView::Bool(b.is_direct))
            &&& holds(r, "reachable"@, JsonView::Bool(b.reachable))
            &&& says(r, "reachability_confidence"@, b.reachability_confidence)
            &&& says(r, "ai_reasoning"@, b.ai_reasoning)
        }),
{
    match findings::sca_record(b) {
        JsonView::Obj(e) => {
            assert(e[0] == ("severity"@, JsonView::Str(b.severity)));
            assert(e[1] == ("title"@, JsonView::Str(b.title)));
            assert(e[2] == ("cve_id"@, JsonView::Str(b.cve_id)));
            assert(e[3] == ("package"@, JsonView::Str(b.package)));
            assert(e[4] == ("version"@, JsonView::Str(b.version)));
            assert(e[5] == ("is_direct"@, JsonView::Bool(b.is_direct)));
            assert(e[7] == ("fix_version"@, JsonView::Str(b.fix_version)));
            assert(e[8] == ("reachable"@, JsonView::Bool(b.reachable)));
            assert(e[9] == (
                "reachability_confidence"@,
                JsonView::Str(b.reachability_confidence),
            ));
            assert(e[10] == ("description"@, JsonView::Str(b.description)));
            assert(e[11] == ("ai_reasoning"@, JsonView::Str(b.ai_reasoning)));
        },
        _ => {},
    }
}

proof fn iac_fields(c: IacFindingView)
    ensures
        ({
            let r = findings::iac_record(c);
            &&& says(r, "severity"@, c.severity) && says(r, "title"@, c.title) && says(
                r,
                "file"@,
                c.file,
            )
            &&& says(r, "resource"@, c.resource) && says(r, "iac_type"@, c.iac_type)
            &&& says(r, "description"@, c.description) && says(r, "fix"@, c.fix)
        }),
{
    match findings::iac_record(c) {
        JsonView::Obj(e) => {
            assert(e[0] == ("severity"@, JsonView::Str(c.severity)));
            assert(e[1] == ("title"@, JsonView::Str(c.title)));
            assert(e[2] == ("file"@, JsonView::Str(c.file)));
            assert(e[4] == ("resource"@, JsonView::Str(c.resource)));
            assert(e[5] == ("iac_type"@, JsonView::Str(c.iac_type)));
            assert(e[6] == ("description"@, JsonView::Str(c.description)));
            assert(e[7] == ("fix"@, JsonView::Str(c.fix)));
        },
        _ => {},
    }
}

proof fn dast_fields(d: DastFindingView)
    ensures
        ({
            let r = findings::dast_record(d);
            &&& says(r, "severity"@, d.severity) && says(r, "title"@, d.title) && says(
                r,
                "url"@,
                d.url,
            )
            &&& says(r, "parameter"@, d.parameter) && says(r, "method"@, d.method)
            &&& says(r, "request"@, d.request) && says(r, "evidence"@, d.evidence)
            &&& says(r, "description"@, d.description) && says(r, "fix"@, d.fix)
        }),
{
    match findings::dast_record(d) {
        JsonView::Obj(e) => {
            assert(e[0] == ("severity"@, JsonView::Str(d.severity)));
            assert(e[1] == ("title"@, JsonView::Str(d.title)));
            assert(e[2] == ("url"@, JsonView::Str(d.url)));
            assert(e[3] == ("parameter"@, JsonView::Str(d.parameter)));
            assert(e[4] == ("method"@, JsonView::Str(d.method)));
            assert(e[5] == ("request"@, JsonView::Str(d.request)));
            assert(e[6] == ("evidence"@, JsonView::Str(d.evidence)));
            assert(e[7] == ("description"@, JsonView::Str(d.description)));
            assert(e[8] == ("fix"@, JsonView::Str(d.fix)));
        },
        _ => {},
    }
}

/// The words of a description are kept when it is wrapped into lines: the lines
/// hold them all, in their order.
pub proof fn wrapping_keeps_the_words(words: Seq<Seq<char>>, width: nat, w: Seq<char>)
    ensures
        ({
            let f = report::filled(words, width);
            let g = report::filled(words.push(w), width);
            &&& f.line.len() == 0 ==> g.full == f.full && g.line == w
            &&& f.line.len() > 0 && text::byte_len(f.line) + 1 + text::byte_len(w) <= width
                ==> g.full == f.full && g.line == f.line + seq![' '] + w
            &&& f.line.len() > 0 && text::byte_len(f.line) + 1 + text::byte_len(w) > width
                ==> g.full == f.full.push(f.line) && g.line == w
        }),
        report::filled(Seq::empty(), width).line.len() == 0,
        report::filled(Seq::empty(), width).full.len() == 0,
{
    assert(words.push(w).drop_last() =~= words);
    let f = report::filled(words, width);
    assert(f.line.push(' ') + w =~= f.line + seq![' '] + w);
}

/// A finding is placed at its file, and at its line where that is known.
pub proof fn findings_are_placed(file: Seq<char>, n: u64)
    ensures
        report::place(file, None) == file,
        report::place(file, Some(n)) == file + seq![':'] + digits::dec(n as nat),
{
    reveal_strlit(":");
    assert(":"@ =~= seq![':']);
}

/// How sure the agent is that a vulnerability is reached is told in words.
pub proof fn reach_is_told_in_words()
    ensures
        text::contains(report::reach_badge("confirmed_reachable"@), "[CONFIRMED REACHABLE]"@),
        text::contains(report::reach_badge("likely_reachable"@), "[LIKELY REACHABLE]"@),
        text::contains(report::reach_badge("not_analyzed"@), "[NOT ANALYZED]"@),
        text::contains(report::reach_badge(Seq::empty()), "[UNKNOWN]"@),
{
    reveal_strlit("confirmed_reachable");
    reveal_strlit("likely_reachable");
    reveal_strlit("not_analyzed");
    assert("confirmed_reachable"@.len() == 19);
    assert("likely_reachable"@.len() == 16);
    assert("not_analyzed"@.len() == 12);
    texts::wholes_hold_their_parts(report::GREEN@, "[CONFIRMED REACHABLE]"@, report::RESET@);
    texts::wholes_hold_their_parts("\x1b[33m"@, "[LIKELY REACHABLE]"@, report::RESET@);
    texts::wholes_hold_their_parts(report::DIM@, "[NOT ANALYZED]"@, report::RESET@);
    texts::wholes_hold_their_parts(report::DIM@, "[UNKNOWN]"@, report::RESET@);
}

/// Through whom a package is needed is told: directly, or by the chain to it.
pub proof fn chains_are_told(via: Seq<Seq<char>>, k: int)
    ensures
        report::via_text(Seq::empty()) == "direct"@,
        0 <= k < via.len() ==> text::contains(report::via_text(via), via[k]),
{
    if 0 <= k < via.len() {
        texts::joined_texts_hold_each(via, " -> "@, k);
        texts::longer_texts_hold_it("via "@, pieces::join(via, " -> "@), via[k]);
    }
}

/// Rows hold what they are made of.
proof fn rows_hold(content: Seq<char>, p: Seq<char>)
    requires
        text::contains(content, p),
    ensures
        text::contains(report::row(content), p),
{
    texts::longer_texts_hold_it(report::EDGE@, content, p);
    texts::longer_texts_hold_it(report::EDGE@ + content, "\n"@, p);
}

proof fn heads_hold(number: nat, label: Seq<char>, name: Seq<char>)
    ensures
        text::contains(report::head_row(number, label, name), name),
        text::contains(report::head_row(number, label, name), text::uppercase(label)),
        text::contains(report::head_row(number, label, name), digits::dec(number)),
{
    let color = severity::level_color(severity::level(label));
    let loud = text::uppercase(label);
    let t0 = "  "@;
    let t1 = t0 + report::BOLD@;
    let t2 = t1 + "#"@;
    let t3 = t2 + digits::dec(number);
    let t4 = t3 + report::RESET@;
    let t5 = t4 + "  "@;
    let t6 = t5 + color;
    let t7 = t6 + "["@;
    let t8 = t7 + loud;
    let t9 = t8 + "]"@;
    let t10 = t9 + report::RESET@;
    let t11 = t10 + "  "@;
    let t12 = t11 + report::BOLD@;
    let t13 = t12 + name;
    let t14 = t13 + report::RESET@;
    assert(text::contains(t14, digits::dec(number))) by {
        texts::texts_hold_themselves(digits::dec(number));
        texts::longer_texts_hold_it(t2, digits::dec(number), digits::dec(number));
        texts::longer_texts_hold_it(t3, report::RESET@, digits::dec(number));
        texts::longer_texts_hold_it(t4, "  "@, digits::dec(number));
        texts::longer_texts_hold_it(t5, color, digits::dec(number));
        texts::longer_texts_hold_it(t6, "["@, digits::dec(number));
        texts::longer_texts_hold_it(t7, loud, digits::dec(number));
        texts::longer_texts_hold_it(t8, "]"@, digits::dec(number));
        texts::longer_texts_hold_it(t9, report::RESET@, digits::dec(number));
        texts::longer_texts_hold_it(t10, "  "@, digits::dec(number));
        texts::longer_texts_hold_it(t11, report::BOLD@, digits::dec(number));
        texts::longer_texts_hold_it(t12, name, digits::dec(number));
        texts::longer_texts_hold_it(t13, report::RESET@, digits::dec(number));
    }
    assert(text::contains(t14, loud)) by {
        texts::texts_hold_themselves(loud);
        texts::longer_texts_hold_it(t7, loud, loud);
        texts::longer_texts_hold_it(t8, "]"@, loud);
        texts::longer_texts_hold_it(t9, report::RESET@, loud);
        texts::longer_texts_hold_it(t10, "  "@, loud);
        texts::longer_texts_hold_it(t11, report::BOLD@, loud);
        texts::longer_texts_hold_it(t12, name, loud);
        texts::longer_texts_hold_it(t13, report::RESET@, loud);
    }
    assert(text::contains(t14, name)) by {
        texts::texts_hold_themselves(name);
        texts::longer_texts_hold_it(t12, name, name);
        texts::longer_texts_hold_it(t13, report::RESET@, name);
    }
    rows_hold(t14, name);
    rows_hold(t14, loud);
    rows_hold(t14, digits::dec(number));
    texts::longer_texts_hold_it(report::row(""@), report::row(t14), name);
    texts::longer_texts_hold_it(report::row(""@), report::row(t14), loud);
    texts::longer_texts_hold_it(report::row(""@), report::row(t14), digits::dec(number));
}

proof fn dim_rows_hold(label: Seq<char>, t: Seq<char>)
    requires
        t.len() > 0,
    ensures
        text::contains(report::dim_row(label, t), t),
{
    let x0 = "      "@;
    let x1 = x0 + report::DIM@;
    let x2 = x1 + label;
    let x3 = x2 + t;
    let x4 = x3 + report::RESET@;
    assert(text::contains(x4, t)) by {
        texts::texts_hold_themselves(t);
        texts::longer_texts_hold_it(x2, t, t);
        texts::longer_texts_hold_it(x3, report::RESET@, t);
    }
    rows_hold(x4, t);
}

/// The report on a code scan shows of each finding its title, its severity, its
/// place and how to mend it.
pub proof fn code_findings_are_shown(number: nat, f: SastFindingView)
    ensures
        ({
            let t = report::sast_entry(number, f);
            &&& text::contains(t, f.title)
            &&& text::contains(t, text::uppercase(f.severity))
            &&& text::contains(t, report::place(f.file, f.line))
            &&& f.fix.len() > 0 ==> text::contains(t, f.fix)
        }),
{
    let h = report::head_row(number, f.severity, f.title);
    let p = report::place(f.file, f.line);
    let r = report::row("      "@ + report::DIM@ + p + report::RESET@);
    let w = report::text_rows(report::wrapped(f.description, 68));
    let d = report::dim_row("Fix: "@, f.fix);
    heads_hold(number, f.severity, f.title);
    texts::wholes_hold_their_parts("      "@ + report::DIM@, p, report::RESET@);
    rows_hold("      "@ + report::DIM@ + p + report::RESET@, p);
    let up = text::uppercase(f.severity);
    texts::longer_texts_hold_it(h, r, f.title);
    texts::longer_texts_hold_it(h + r, w, f.title);
    texts::longer_texts_hold_it(h + r + w, d, f.title);
    texts::longer_texts_hold_it(h, r, up);
    texts::longer_texts_hold_it(h + r, w, up);
    texts::longer_texts_hold_it(h + r + w, d, up);
    texts::longer_texts_hold_it(h, r, p);
    texts::longer_texts_hold_it(h + r, w, p);
    texts::longer_texts_hold_it(h + r + w, d, p);
    if f.fix.len() > 0 {
        dim_rows_hold("Fix: "@, f.fix);
        texts::longer_texts_hold_it(h + r + w, d, f.fix);
    }
}

/// The report on a package scan shows of each finding its advisory, its title,
/// the package and its version, and the version that mends it.
pub proof fn package_findings_are_shown(number: nat, f: ScaFindingView)
    ensures
        ({
            let t = report::sca_entry(number, f);
            &&& text::contains(t, f.cve_id)
            &&& text::contains(t, text::uppercase(f.severity))
            &&& text::contains(t, f.title)
            &&& text::contains(t, f.package)
            &&& text::contains(t, f.version)
            &&& f.fix_version.len() > 0 ==> text::contains(t, f.fix_version)
        }),
{
    let h = report::head_row(number, f.severity, f.cve_id);
    let r1 = report::row("      "@ + report::BOLD@ + f.title + report::RESET@);
    let c = "      "@ + report::DIM@ + f.package + "@"@ + f.version + "  "@ + report::via_text(f.via)
        + "  "@ + report::reach_badge(f.reachability_confidence) + report::RESET@;
    let r2 = report::row(c);
    let d = report::dim_row("Fix: upgrade to "@, f.fix_version);
    let w = report::text_rows(report::wrapped(f.description, 66));
    let a = report::dim_row("AI: "@, text::prefix(f.ai_reasoning, 160));
    heads_hold(number, f.severity, f.cve_id);
    texts::wholes_hold_their_parts("      "@ + report::BOLD@, f.title, report::RESET@);
    rows_hold("      "@ + report::BOLD@ + f.title + report::RESET@, f.title);
    package_row(f);
    rows_hold(c, f.package);
    rows_hold(c, f.version);
    sca_parts(h, r1, r2, d, w, a, f.cve_id);
    sca_parts(h, r1, r2, d, w, a, text::uppercase(f.severity));
    sca_parts(h, r1, r2, d, w, a, f.title);
    sca_parts(h, r1, r2, d, w, a, f.package);
    sca_parts(h, r1, r2, d, w, a, f.version);
    if f.fix_version.len() > 0 {
        dim_rows_hold("Fix: upgrade to "@, f.fix_version);
        sca_parts(h, r1, r2, d, w, a, f.fix_version);
    }
}

proof fn package_row(f: ScaFindingView)
    ensures
        ({
            let c = "      "@ + report::DIM@ + f.package + "@"@ + f.version + "  "@
                + report::via_text(f.via) + "  "@ + report::reach_badge(f.reachability_confidence)
                + report::RESET@;
            text::contains(c, f.package) && text::contains(c, f.version)
        }),
{
    let t0 = "      "@;
    let t1 = t0 + report::DIM@;
    let t2 = t1 + f.package;
    let t3 = t2 + "@"@;
    let t4 = t3 + f.version;
    let t5 = t4 + "  "@;
    let t6 = t5 + report::via_text(f.via);
    let t7 = t6 + "  "@;
    let t8 = t7 + report::reach_badge(f.reachability_confidence);
    let t9 = t8 + report::RESET@;
    assert(text::contains(t9, f.package)) by {
        texts::texts_hold_themselves(f.package);
        texts::longer_texts_hold_it(t1, f.package, f.package);
        texts::longer_texts_hold_it(t2, "@"@, f.package);
        texts::longer_texts_hold_it(t3, f.version, f.package);
        texts::longer_texts_hold_it(t4, "  "@, f.package);
        texts::longer_texts_hold_it(t5, report::via_text(f.via), f.package);
        texts::longer_texts_hold_it(t6, "  "@, f.package);
        texts::longer_texts_hold_it(t7, report::reach_badge(f.reachability_confidence), f.package);
        texts::longer_texts_hold_it(t8, report::RESET@, f.package);
    }
    assert(text::contains(t9, f.version)) by {
        texts::texts_hold_themselves(f.version);
        texts::longer_texts_hold_it(t3, f.version, f.version);
        texts::longer_texts_hold_it(t4, "  "@, f.version);
        texts::longer_texts_hold_it(t5, report::via_text(f.via), f.version);
        texts::longer_texts_hold_it(t6, "  "@, f.version);
        texts::longer_texts_hold_it(t7, report::reach_badge(f.reachability_confidence), f.version);
        texts::longer_texts_hold_it(t8, report::RESET@, f.version);
    }
}

proof fn sca_parts(
    h: Seq<char>,
    r1: Seq<char>,
    r2: Seq<char>,
    d: Seq<char>,
    w: Seq<char>,
    a: Seq<char>,
    p: Seq<char>,
)
    requires
        text::contains(h, p) || text::contains(r1, p) || text::contains(r2, p) || text::contains(
            d,
            p,
        ),
    ensures
        text::contains(h + r1 + r2 + d + w + a, p),
{
    if text::contains(h, p) || text::contains(r1, p) {
        texts::longer_texts_hold_it(h, r1, p);
        texts::longer_texts_hold_it(h + r1, r2, p);
        texts::longer_texts_hold_it(h + r1 + r2, d, p);
    } else if text::contains(r2, p) {
        texts::longer_texts_hold_it(h + r1, r2, p);
        texts::longer_texts_hold_it(h + r1 + r2, d, p);
    } else {
        texts::longer_texts_hold_it(h + r1 + r2, d, p);
    }
    texts::longer_texts_hold_it(h + r1 + r2 + d, w, p);
    texts::longer_texts_hold_it(h + r1 + r2 + d + w, a, p);
}

/// The reports show every finding, numbered from one.
pub proof fn every_code_finding_is_shown(v: Seq<SastFindingView>, k: int)
    requires
        0 <= k < v.len(),
    ensures
        text::contains(report::sast_entries(v), report::sast_entry((k + 1) as nat, v[k])),
    decreases v.len(),
{
    let x = report::sast_entry((k + 1) as nat, v[k]);
    if k == v.len() - 1 {
        texts::texts_hold_themselves(x);
    } else {
        every_code_finding_is_shown(v.drop_last(), k);
    }
    texts::longer_texts_hold_it(
        report::sast_entries(v.drop_last()),
        report::sast_entry(v.len(), v.last()),
        x,
    );
}

/// So does the report on packages.
pub proof fn every_package_finding_is_shown(v: Seq<ScaFindingView>, k: int)
    requires
        0 <= k < v.len(),
    ensures
        text::contains(report::sca_entries(v), report::sca_entry((k + 1) as nat, v[k])),
    decreases v.len(),
{
    let x = report::sca_entry((k + 1) as nat, v[k]);
    if k == v.len() - 1 {
        texts::texts_hold_themselves(x);
    } else {
        every_package_finding_is_shown(v.drop_last(), k);
    }
    texts::longer_texts_hold_it(
        report::sca_entries(v.drop_last()),
        report::sca_entry(v.len(), v.last()),
        x,
    );
}

/// So does the report on infrastructure.
pub proof fn every_infrastructure_finding_is_shown(v: Seq<IacFindingView>, k: int)
    requires
        0 <= k < v.len(),
    ensures
        text::contains(report::iac_entries(v), report::iac_entry((k + 1) as nat, v[k])),
    decreases v.len(),
{
    let x = report::iac_entry((k + 1) as nat, v[k]);
    if k == v.len() - 1 {
        texts::texts_hold_themselves(x);
    } else {
        every_infrastructure_finding_is_shown(v.drop_last(), k);
    }
    texts::longer_texts_hold_it(
        report::iac_entries(v.drop_last()),
        report::iac_entry(v.len(), v.last()),
        x,
    );
}

/// So does the report on a running application.
pub proof fn every_application_finding_is_shown(v: Seq<DastFindingView>, k: int)
    requires
        0 <= k < v.len(),
    ensures
        text::contains(report::dast_entries(v), report::dast_entry((k + 1) as nat, v[k])),
    decreases v.len(),
{
    let x = report::dast_entry((k + 1) as nat, v[k]);
    if k == v.len() - 1 {
        texts::texts_hold_themselves(x);
    } else {
        every_application_finding_is_shown(v.drop_last(), k);
    }
    texts::longer_texts_hold_it(
        report::dast_entries(v.drop_last()),
        report::dast_entry(v.len(), v.last()),
        x,
    );
}

/// A wrapped text ends with the line that is not yet full, and an empty text has
/// no lines.
pub proof fn wrapped_texts_end_with_their_rest(s: Seq<char>, width: nat)
    ensures
        ({
            let f = report::filled(pieces::words(s), width);
            &&& f.line.len() > 0 ==> report::wrapped(s, width) == f.full.push(f.line)
            &&& f.line.len() == 0 ==> report::wrapped(s, width) == f.full
        }),
{
}

/// A place in the source says that it is one; another address does not.
pub proof fn source_places_are_relative(uri: Seq<char>)
    ensures
        says(sarif::artifact(uri, true), "uriBaseId"@, "%SRCROOT%"@),
        says(sarif::artifact(uri, true), "uri"@, uri),
        says(sarif::artifact(uri, false), "uri"@, uri),
        sarif::artifact(uri, false) matches JsonView::Obj(e) && e.len() == 1,
{
    match sarif::artifact(uri, true) {
        JsonView::Obj(e) => {
            assert(e[0] == ("uri"@, JsonView::Str(uri)));
            assert(e[1] == ("uriBaseId"@, JsonView::Str("%SRCROOT%"@)));
        },
        _ => {},
    }
    match sarif::artifact(uri, false) {
        JsonView::Obj(e) => {
            assert(e[0] == ("uri"@, JsonView::Str(uri)));
        },
        _ => {},
    }
}

/// A finding in infrastructure is shown with its number, title and place, its
/// resource where one is known, and how it is fixed.
pub proof fn infrastructure_findings_are_shown(n: nat, f: IacFindingView)
    ensures
        ({
            let x = report::iac_entry(n, f);
            &&& text::contains(x, digits::dec(n))
            &&& text::contains(x, f.title)
            &&& text::contains(x, text::uppercase(f.severity))
            &&& text::contains(x, report::place(f.file, f.line))
            &&& f.resource.len() > 0 ==> text::contains(x, "resource: "@ + f.resource)
            &&& text::contains(x, report::text_rows(report::wrapped(f.description, 66)))
            &&& 0 < f.fix.len() <= 140 ==> text::contains(x, f.fix)
        }),
{
    let head = report::head_row(n, f.severity, f.title);
    let spot = report::place(f.file, f.line);
    let content = if f.resource.len() > 0 {
        "      "@ + report::DIM@ + "resource: "@ + f.resource + "  |  "@ + spot + report::RESET@
    } else {
        "      "@ + report::DIM@ + spot + report::RESET@
    };
    let at = report::row(content);
    let told = report::text_rows(report::wrapped(f.description, 66));
    let fix = report::dim_row("Fix: "@, text::prefix(f.fix, 140));
    heads_hold(n, f.severity, f.title);
    if f.resource.len() > 0 {
        let p = "resource: "@ + f.resource;
        let rest = "  |  "@ + spot + report::RESET@;
        texts::wholes_hold_their_parts("      "@ + report::DIM@, p, rest);
        assert("      "@ + report::DIM@ + p + rest =~= content);
        rows_hold(content, p);
        texts::wholes_hold_their_parts(
            "      "@ + report::DIM@ + "resource: "@ + f.resource + "  |  "@,
            spot,
            report::RESET@,
        );
    } else {
        texts::wholes_hold_their_parts("      "@ + report::DIM@, spot, report::RESET@);
    }
    rows_hold(content, spot);
    if 0 < f.fix.len() <= 140 {
        texts::cut_texts_are_prefixes(f.fix, 140);
        dim_rows_hold("Fix: "@, f.fix);
    }
    texts::texts_hold_themselves(told);
    entry_holds(head, at, told, fix, f.title);
    entry_holds(head, at, told, fix, digits::dec(n));
    entry_holds(head, at, told, fix, text::uppercase(f.severity));
    entry_holds(head, at, told, fix, spot);
    entry_holds(head, at, told, fix, "resource: "@ + f.resource);
    entry_holds(head, at, told, fix, told);
    entry_holds(head, at, told, fix, f.fix);
}

proof fn entry_holds(a: Seq<char>, b: Seq<char>, c: Seq<char>, d: Seq<char>, p: Seq<char>)
    ensures
        text::contains(a, p) || text::contains(b, p) || text::contains(c, p) || text::contains(d, p)
            ==> text::contains(a + b + c + d, p),
{
    if text::contains(a, p) || text::contains(b, p) {
        texts::longer_texts_hold_it(a, b, p);
    }
    if text::contains(a, p) || text::contains(b, p) || text::contains(c, p) {
        texts::longer_texts_hold_it(a + b, c, p);
    }
    if text::contains(a, p) || text::contains(b, p) || text::contains(c, p) || text::contains(d, p) {
        texts::longer_texts_hold_it(a + b + c, d, p);
    }
}

/// A finding in a running application is shown with its number, title and
/// request, its parameter and evidence, and how it is fixed.
pub proof fn application_findings_are_shown(n: nat, f: DastFindingView)
    ensures
        ({
            let x = report::dast_entry(n, f);
            &&& text::contains(x, digits::dec(n))
            &&& text::contains(x, f.title)
            &&& text::contains(x, text::uppercase(f.severity))
            &&& f.url.len() > 0 ==> text::contains(x, f.method + " "@ + f.url)
            &&& f.parameter.len() > 0 ==> text::contains(x, f.parameter)
            &&& text::contains(x, report::text_rows(report::wrapped(f.description, 68)))
            &&& 0 < f.evidence.len() <= 72 ==> text::contains(x, f.evidence)
            &&& f.fix.len() > 0 ==> text::contains(x, f.fix)
        }),
{
    let head = report::head_row(n, f.severity, f.title);
    let asked = f.method + " "@ + f.url;
    let at = if f.url.len() > 0 {
        report::row("      "@ + report::DIM@ + f.method + " "@ + f.url + report::RESET@)
    } else {
        Seq::empty()
    };
    let param = report::dim_row("param: "@, f.parameter);
    let told = report::text_rows(report::wrapped(f.description, 68));
    let seen = report::dim_row("evidence: "@, text::prefix(f.evidence, 72));
    let fix = report::dim_row("Fix: "@, f.fix);
    heads_hold(n, f.severity, f.title);
    if f.url.len() > 0 {
        texts::wholes_hold_their_parts("      "@ + report::DIM@, asked, report::RESET@);
        assert("      "@ + report::DIM@ + asked + report::RESET@ =~= "      "@ + report::DIM@ + f.method
            + " "@ + f.url + report::RESET@);
        rows_hold("      "@ + report::DIM@ + asked + report::RESET@, asked);
    }
    if f.parameter.len() > 0 {
        dim_rows_hold("param: "@, f.parameter);
    }
    if 0 < f.evidence.len() <= 72 {
        texts::cut_texts_are_prefixes(f.evidence, 72);
        dim_rows_hold("evidence: "@, f.evidence);
    }
    if f.fix.len() > 0 {
        dim_rows_hold("Fix: "@, f.fix);
    }
    texts::texts_hold_themselves(told);
    let x = head + at + param + told;
    entry_holds(head, at, param, told, f.title);
    entry_holds(head, at, param, told, digits::dec(n));
    entry_holds(head, at, param, told, text::uppercase(f.severity));
    entry_holds(head, at, param, told, asked);
    entry_holds(head, at, param, told, f.parameter);
    entry_holds(head, at, param, told, told);
    let e = Seq::<char>::empty();
    assert(x + seen + fix + e =~= report::dast_entry(n, f));
    entry_holds(x, seen, fix, e, f.title);
    entry_holds(x, seen, fix, e, digits::dec(n));
    entry_holds(x, seen, fix, e, text::uppercase(f.severity));
    entry_holds(x, seen, fix, e, asked);
    entry_holds(x, seen, fix, e, f.parameter);
    entry_holds(x, seen, fix, e, told);
    entry_holds(x, seen, fix, e, f.evidence);
    entry_holds(x, seen, fix, e, f.fix);
}

/// The description of a finding is shown line by line.
pub proof fn descriptions_are_shown_line_by_line(v: Seq<Seq<char>>, l: Seq<char>)
    ensures
        report::text_rows(Seq::empty()).len() == 0,
        report::text_rows(v.push(l)) == report::text_rows(v) + report::row("      "@ + l),
        text::contains(report::row("      "@ + l), l),
{
    assert(v.push(l).drop_last() =~= v);
    texts::texts_hold_themselves(l);
    texts::longer_texts_hold_it("      "@, l, l);
    rows_hold("      "@ + l, l);
}

} // verus!
