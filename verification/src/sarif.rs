//! SARIF and JSON documents of the findings.

use vstd::prelude::*;
use crate::api::Finding;
use crate::digits;
use crate::findings;
use crate::findings::{DastFinding, IacFinding, SastFinding, ScaFinding};
use crate::json;
use crate::json::Json;
use crate::session;
use crate::severity;
use crate::severity::Rated;
use crate::text;

verus! {

broadcast use {
    vstd::seq::group_seq_axioms,
    vstd::string::group_string_axioms,
    json::fields_push,
    json::fields_empty,
    json::values_push,
    json::values_empty,
};

// ---- the frame of a document ----------------------------------------------------------

/// Where the format is defined.
pub const SCHEMA: &'static str =
    "https://raw.githubusercontent.com/oasis-tcs/sarif-spec/master/Schemata/sarif-schema-2.1.0.json";

/// Where the tool is described.
pub const HOME_PAGE: &'static str = "https://strobes.co";

/// An object with one text.
pub open spec fn one_text(key: Seq<char>, t: Seq<char>) -> json::JsonView {
    json::JsonView::Obj(seq![(key, json::JsonView::Str(t))])
}

/// A SARIF document with one run of a tool.
pub open spec fn document(
    tool: Seq<char>,
    rules: Seq<json::JsonView>,
    results: Seq<json::JsonView>,
    id: Seq<char>,
) -> json::JsonView {
    let driver = json::JsonView::Obj(
        json::no_entries()
            .push(("name"@, json::JsonView::Str(tool)))
            .push(("version"@, json::JsonView::Str(session::VERSION@)))
            .push(("informationUri"@, json::JsonView::Str(HOME_PAGE@)))
            .push(("rules"@, json::JsonView::Arr(rules))),
    );
    let run = json::JsonView::Obj(
        json::no_entries()
            .push(("tool"@, json::JsonView::Obj(seq![("driver"@, driver)])))
            .push(("results"@, json::JsonView::Arr(results)))
            .push(("automationDetails"@, one_text("id"@, id))),
    );
    json::JsonView::Obj(
        json::no_entries()
            .push(("$schema"@, json::JsonView::Str(SCHEMA@)))
            .push(("version"@, json::JsonView::Str("2.1.0"@)))
            .push(("runs"@, json::JsonView::Arr(seq![run]))),
    )
}

fn one_text_json(key: &str, t: &str) -> (r: Json)
    ensures
        r@ == one_text(key@, t@),
{
    let mut o = json::no_fields();
    json::put_text(&mut o, key, t);
    let j = Json::Obj(o);
    assert(j@->Obj_0 =~= one_text(key@, t@)->Obj_0);
    j
}

fn one_json(key: &str, v: Json) -> (r: Json)
    ensures
        r@ == json::JsonView::Obj(seq![(key@, v@)]),
{
    let mut o = json::no_fields();
    json::put(&mut o, key, v);
    let j = Json::Obj(o);
    assert(j@->Obj_0 =~= seq![(key@, v@)]);
    j
}

fn one_item(v: Json) -> (r: Json)
    ensures
        r@ == json::JsonView::Arr(seq![v@]),
{
    let mut a: Vec<Json> = Vec::new();
    a.push(v);
    proof {
        json::values_push(Seq::empty(), v);
    }
    Json::Arr(a)
}

fn document_json(tool: &str, rules: Vec<Json>, results: Vec<Json>, id: &str) -> (r: Json)
    ensures
        r@ == document(tool@, json::values(rules@), json::values(results@), id@),
{
    let mut driver = json::no_fields();
    json::put_text(&mut driver, "name", tool);
    json::put_text(&mut driver, "version", session::VERSION);
    json::put_text(&mut driver, "informationUri", HOME_PAGE);
    json::put(&mut driver, "rules", Json::Arr(rules));
    let mut run = json::no_fields();
    json::put(&mut run, "tool", one_json("driver", Json::Obj(driver)));
    json::put(&mut run, "results", Json::Arr(results));
    json::put(&mut run, "automationDetails", one_text_json("id", id));
    let mut top = json::no_fields();
    json::put_text(&mut top, "$schema", SCHEMA);
    json::put_text(&mut top, "version", "2.1.0");
    json::put(&mut top, "runs", one_item(Json::Obj(run)));
    Json::Obj(top)
}

/// The SARIF level of a severity. A `strict` list tells low from what is not
/// rated.
pub open spec fn sarif_level(label: Seq<char>, strict: bool) -> Seq<char> {
    let n = severity::level(label);
    if n >= 3 {
        "error"@
    } else if n == 2 {
        "warning"@
    } else if n == 1 || !strict {
        "note"@
    } else {
        "none"@
    }
}

fn level_word(label: &str, strict: bool) -> (r: &'static str)
    ensures
        r@ == sarif_level(label@, strict),
{
    let n = severity::severity_level(label);
    if n >= 3 {
        "error"
    } else if n == 2 {
        "warning"
    } else if n == 1 || !strict {
        "note"
    } else {
        "none"
    }
}

/// The id of the rule of the entry at that position.
pub open spec fn rule_id(prefix: Seq<char>, i: nat) -> Seq<char> {
    prefix + digits::dec_padded(i + 1, 3)
}

fn rule_id_string(prefix: &str, i: usize) -> (r: String)
    requires
        i < usize::MAX,
    ensures
        r@ == rule_id(prefix@, i as nat),
{
    let mut s = prefix.to_owned();
    let n = digits::usize_padded(i + 1, 3);
    s.push_str(&n);
    s
}

/// A place in a document: the file, and whether it is relative to the sources.
pub open spec fn artifact(uri: Seq<char>, relative: bool) -> json::JsonView {
    if relative {
        json::JsonView::Obj(
            json::no_entries()
                .push(("uri"@, json::JsonView::Str(uri)))
                .push(("uriBaseId"@, json::JsonView::Str("%SRCROOT%"@))),
        )
    } else {
        one_text("uri"@, uri)
    }
}

/// The list with one location.
pub open spec fn locations(
    uri: Seq<char>,
    relative: bool,
    line: Option<u64>,
) -> json::JsonView {
    let base = seq![("artifactLocation"@, artifact(uri, relative))];
    let physical = json::JsonView::Obj(
        match line {
            Some(l) => base.push(
                ("region"@, json::JsonView::Obj(seq![("startLine"@, json::number(l as nat))])),
            ),
            None => base,
        },
    );
    json::JsonView::Arr(seq![json::JsonView::Obj(seq![("physicalLocation"@, physical)])])
}

fn locations_json(uri: &str, relative: bool, line: Option<u64>) -> (r: Json)
    ensures
        r@ == locations(uri@, relative, line),
{
    let mut a = json::no_fields();
    json::put_text(&mut a, "uri", uri);
    if relative {
        json::put_text(&mut a, "uriBaseId", "%SRCROOT%");
    }
    let art = Json::Obj(a);
    assert(art@->Obj_0 =~= artifact(uri@, relative)->Obj_0);
    let mut p = json::no_fields();
    json::put(&mut p, "artifactLocation", art);
    match line {
        Some(l) => {
            let mut g = json::no_fields();
            json::put_number(&mut g, "startLine", l);
            let region = Json::Obj(g);
            assert(region@->Obj_0 =~= seq![("startLine"@, json::number(l as nat))]);
            json::put(&mut p, "region", region);
        },
        None => {},
    }
    one_item(one_json("physicalLocation", Json::Obj(p)))
}

/// A line, the first one where none is known.
pub open spec fn first_line(l: Option<u64>) -> u64 {
    match l {
        Some(n) => n,
        None => 1,
    }
}

fn first_line_of(l: Option<u64>) -> (r: u64)
    ensures
        r == first_line(l),
{
    match l {
        Some(n) => n,
        None => 1,
    }
}

// ---- a code scan ---------------------------------------------------------------

/// The rule of the finding at that position.
pub open spec fn sast_rule(i: nat, f: findings::SastFindingView) -> json::JsonView {
    json::JsonView::Obj(
        json::no_entries()
            .push(("id"@, json::JsonView::Str(rule_id("STROBES-SAST-"@, i))))
            .push(("shortDescription"@, one_text("text"@, f.title)))
            .push((
                "properties"@,
                json::JsonView::Obj(
                    seq![
                        ("severity"@, json::JsonView::Str(f.severity)),
                    ],
                ),
            )),
    )
}

/// The result of the finding at that position.
pub open spec fn sast_result(i: nat, f: findings::SastFindingView) -> json::JsonView {
    json::JsonView::Obj(
        json::no_entries()
            .push(("ruleId"@, json::JsonView::Str(rule_id("STROBES-SAST-"@, i))))
            .push(("level"@, json::JsonView::Str(sarif_level(f.severity, true))))
            .push(("message"@, one_text("text"@, f.title + "\n\n"@ + f.description)))
            .push(("locations"@, locations(f.file, true, f.line))),
    )
}

/// The rules of the findings, in order.
pub open spec fn sast_rules(v: Seq<findings::SastFindingView>) -> Seq<json::JsonView> {
    v.map(|i: int, f: findings::SastFindingView| sast_rule(i as nat, f))
}

/// The results of the findings, in order.
pub open spec fn sast_results(v: Seq<findings::SastFindingView>) -> Seq<json::JsonView> {
    v.map(|i: int, f: findings::SastFindingView| sast_result(i as nat, f))
}

fn sast_rule_json(i: usize, f: &SastFinding) -> (r: Json)
    requires
        i < usize::MAX,
    ensures
        r@ == sast_rule(i as nat, f@),
{
    let short = f.title.clone();
    let mut p = json::no_fields();
    json::put_text(&mut p, "severity", &f.severity);
    let mut o = json::no_fields();
    let id = rule_id_string("STROBES-SAST-", i);
    json::put_text(&mut o, "id", &id);
    json::put(&mut o, "shortDescription", one_text_json("text", &short));
    json::put(&mut o, "properties", Json::Obj(p));
    Json::Obj(o)
}

fn sast_result_json(i: usize, f: &SastFinding) -> (r: Json)
    requires
        i < usize::MAX,
    ensures
        r@ == sast_result(i as nat, f@),
{
    let mut m = f.title.clone();
    m.push_str("\n\n");
    m.push_str(&f.description);
    let mut o = json::no_fields();
    let id = rule_id_string("STROBES-SAST-", i);
    json::put_text(&mut o, "ruleId", &id);
    json::put_text(&mut o, "level", level_word(&f.severity, true));
    json::put(&mut o, "message", one_text_json("text", &m));
    json::put(&mut o, "locations", locations_json(&f.file, true, f.line));
    Json::Obj(o)
}

/// The findings of a code scan as a SARIF document.
pub fn sast_to_sarif(v: &Vec<SastFinding>, target: &str) -> (r: Json)
    ensures
        r@ == document(
            "Strobes SAST"@,
            sast_rules(severity::seen(v@)),
            sast_results(severity::seen(v@)),
            "strobes/sast/"@ + target@,
        ),
{
    let ghost all = severity::seen(v@);
    let ghost want = sast_rules(all);
    let ghost also = sast_results(all);
    let mut rules: Vec<Json> = Vec::new();
    let mut results: Vec<Json> = Vec::new();
    assert(want.take(0) =~= Seq::empty());
    assert(also.take(0) =~= Seq::empty());
    let mut i: usize = 0;
    while i < v.len()
        invariant
            i <= v@.len(),
            all == severity::seen(v@),
            want == sast_rules(all),
            also == sast_results(all),
            json::values(rules@) == want.take(i as int),
            json::values(results@) == also.take(i as int),
        decreases v@.len() - i,
    {
        assert(all[i as int] == v@[i as int]@);
        let a = sast_rule_json(i, &v[i]);
        let b = sast_result_json(i, &v[i]);
        rules.push(a);
        results.push(b);
        assert(want.take(i + 1) =~= want.take(i as int).push(want[i as int]));
        assert(also.take(i + 1) =~= also.take(i as int).push(also[i as int]));
        i += 1;
    }
    assert(want.take(want.len() as int) =~= want);
    assert(also.take(also.len() as int) =~= also);
    let mut id = "strobes/sast/".to_owned();
    id.push_str(target);
    document_json("Strobes SAST", rules, results, &id)
}

// ---- a dependency scan ---------------------------------------------------------

/// The rule of the finding at that position.
pub open spec fn sca_rule(i: nat, f: findings::ScaFindingView) -> json::JsonView {
    json::JsonView::Obj(
        json::no_entries()
            .push(("id"@, json::JsonView::Str(rule_id("STROBES-SCA-"@, i))))
            .push(("shortDescription"@, one_text("text"@, f.cve_id + " in "@ + f.package)))
            .push((
                "properties"@,
                json::JsonView::Obj(
                    json::no_entries()
                        .push(("severity"@, json::JsonView::Str(f.severity)))
                        .push(("cve"@, json::JsonView::Str(f.cve_id))),
                ),
            )),
    )
}

/// The result of the finding at that position.
pub open spec fn sca_result(i: nat, f: findings::ScaFindingView) -> json::JsonView {
    json::JsonView::Obj(
        json::no_entries()
            .push(("ruleId"@, json::JsonView::Str(rule_id("STROBES-SCA-"@, i))))
            .push(("level"@, json::JsonView::Str(sarif_level(f.severity, false))))
            .push(("message"@, one_text("text"@, f.cve_id + ": "@ + f.title + "\n\n"@ + f.description)))
            .push(("locations"@, locations(f.package + "@"@ + f.version, false, None)))
            .push((
                "properties"@,
                json::JsonView::Obj(
                    json::no_entries()
                        .push(("severity"@, json::JsonView::Str(f.severity)))
                        .push(("package"@, json::JsonView::Str(f.package)))
                        .push(("version"@, json::JsonView::Str(f.version)))
                        .push(("fix_version"@, json::JsonView::Str(f.fix_version)))
                        .push(("reachable"@, json::JsonView::Bool(f.reachable)))
                        .push(("reachability"@, json::JsonView::Str(f.reachability_confidence))),
                ),
            )),
    )
}

/// The rules of the findings, in order.
pub open spec fn sca_rules(v: Seq<findings::ScaFindingView>) -> Seq<json::JsonView> {
    v.map(|i: int, f: findings::ScaFindingView| sca_rule(i as nat, f))
}

/// The results of the findings, in order.
pub open spec fn sca_results(v: Seq<findings::ScaFindingView>) -> Seq<json::JsonView> {
    v.map(|i: int, f: findings::ScaFindingView| sca_result(i as nat, f))
}

fn sca_rule_json(i: usize, f: &ScaFinding) -> (r: Json)
    requires
        i < usize::MAX,
    ensures
        r@ == sca_rule(i as nat, f@),
{
    let mut short = f.cve_id.clone();
    short.push_str(" in ");
    short.push_str(&f.package);
    let mut p = json::no_fields();
    json::put_text(&mut p, "severity", &f.severity);
    json::put_text(&mut p, "cve", &f.cve_id);
    let mut o = json::no_fields();
    let id = rule_id_string("STROBES-SCA-", i);
    json::put_text(&mut o, "id", &id);
    json::put(&mut o, "shortDescription", one_text_json("text", &short));
    json::put(&mut o, "properties", Json::Obj(p));
    Json::Obj(o)
}

fn sca_result_json(i: usize, f: &ScaFinding) -> (r: Json)
    requires
        i < usize::MAX,
    ensures
        r@ == sca_result(i as nat, f@),
{
    let mut m = f.cve_id.clone();
    m.push_str(": ");
    m.push_str(&f.title);
    m.push_str("\n\n");
    m.push_str(&f.description);
    let mut uri = f.package.clone();
    uri.push_str("@");
    uri.push_str(&f.version);
    let mut o = json::no_fields();
    let id = rule_id_string("STROBES-SCA-", i);
    json::put_text(&mut o, "ruleId", &id);
    json::put_text(&mut o, "level", level_word(&f.severity, false));
    json::put(&mut o, "message", one_text_json("text", &m));
    json::put(&mut o, "locations", locations_json(&uri, false, None));
    let mut p = json::no_fields();
    json::put_text(&mut p, "severity", &f.severity);
    json::put_text(&mut p, "package", &f.package);
    json::put_text(&mut p, "version", &f.version);
    json::put_text(&mut p, "fix_version", &f.fix_version);
    json::put(&mut p, "reachable", Json::Bool(f.reachable));
    json::put_text(&mut p, "reachability", &f.reachability_confidence);
    json::put(&mut o, "properties", Json::Obj(p));
    Json::Obj(o)
}

/// The findings of a dependency scan as a SARIF document.
pub fn sca_to_sarif(v: &Vec<ScaFinding>, target: &str) -> (r: Json)
    ensures
        r@ == document(
            "Strobes SCA"@,
            sca_rules(severity::seen(v@)),
            sca_results(severity::seen(v@)),
            "strobes/sca/"@ + target@,
        ),
{
    let ghost all = severity::seen(v@);
    let ghost want = sca_rules(all);
    let ghost also = sca_results(all);
    let mut rules: Vec<Json> = Vec::new();
    let mut results: Vec<Json> = Vec::new();
    assert(want.take(0) =~= Seq::empty());
    assert(also.take(0) =~= Seq::empty());
    let mut i: usize = 0;
    while i < v.len()
        invariant
            i <= v@.len(),
            all == severity::seen(v@),
            want == sca_rules(all),
            also == sca_results(all),
            json::values(rules@) == want.take(i as int),
            json::values(results@) == also.take(i as int),
        decreases v@.len() - i,
    {
        assert(all[i as int] == v@[i as int]@);
        let a = sca_rule_json(i, &v[i]);
        let b = sca_result_json(i, &v[i]);
        rules.push(a);
        results.push(b);
        assert(want.take(i + 1) =~= want.take(i as int).push(want[i as int]));
        assert(also.take(i + 1) =~= also.take(i as int).push(also[i as int]));
        i += 1;
    }
    assert(want.take(want.len() as int) =~= want);
    assert(also.take(also.len() as int) =~= also);
    let mut id = "strobes/sca/".to_owned();
    id.push_str(target);
    document_json("Strobes SCA", rules, results, &id)
}

// ---- an infrastructure scan ----------------------------------------------------

/// The rule of the finding at that position.
pub open spec fn iac_rule(i: nat, f: findings::IacFindingView) -> json::JsonView {
    json::JsonView::Obj(
        json::no_entries()
            .push(("id"@, json::JsonView::Str(rule_id("STROBES-IAC-"@, i))))
            .push(("shortDescription"@, one_text("text"@, f.title)))
            .push((
                "properties"@,
                json::JsonView::Obj(
                    json::no_entries()
                        .push(("severity"@, json::JsonView::Str(f.severity)))
                        .push(("iac_type"@, json::JsonView::Str(f.iac_type))),
                ),
            )),
    )
}

/// The result of the finding at that position.
pub open spec fn iac_result(i: nat, f: findings::IacFindingView) -> json::JsonView {
    json::JsonView::Obj(
        json::no_entries()
            .push(("ruleId"@, json::JsonView::Str(rule_id("STROBES-IAC-"@, i))))
            .push(("level"@, json::JsonView::Str(sarif_level(f.severity, false))))
            .push(("message"@, one_text("text"@, f.description + "\n\n"@ + f.fix)))
            .push(("locations"@, locations(f.file, false, Some(first_line(f.line)))))
            .push((
                "properties"@,
                json::JsonView::Obj(
                    json::no_entries()
                        .push(("resource"@, json::JsonView::Str(f.resource)))
                        .push(("iac_type"@, json::JsonView::Str(f.iac_type))),
                ),
            )),
    )
}

/// The rules of the findings, in order.
pub open spec fn iac_rules(v: Seq<findings::IacFindingView>) -> Seq<json::JsonView> {
    v.map(|i: int, f: findings::IacFindingView| iac_rule(i as nat, f))
}

/// The results of the findings, in order.
pub open spec fn iac_results(v: Seq<findings::IacFindingView>) -> Seq<json::JsonView> {
    v.map(|i: int, f: findings::IacFindingView| iac_result(i as nat, f))
}

fn iac_rule_json(i: usize, f: &IacFinding) -> (r: Json)
    requires
        i < usize::MAX,
    ensures
        r@ == iac_rule(i as nat, f@),
{
    let short = f.title.clone();
    let mut p = json::no_fields();
    json::put_text(&mut p, "severity", &f.severity);
    json::put_text(&mut p, "iac_type", &f.iac_type);
    let mut o = json::no_fields();
    let id = rule_id_string("STROBES-IAC-", i);
    json::put_text(&mut o, "id", &id);
    json::put(&mut o, "shortDescription", one_text_json("text", &short));
    json::put(&mut o, "properties", Json::Obj(p));
    Json::Obj(o)
}

fn iac_result_json(i: usize, f: &IacFinding) -> (r: Json)
    requires
        i < usize::MAX,
    ensures
        r@ == iac_result(i as nat, f@),
{
    let mut m = f.description.clone();
    m.push_str("\n\n");
    m.push_str(&f.fix);
    let mut o = json::no_fields();
    let id = rule_id_string("STROBES-IAC-", i);
    json::put_text(&mut o, "ruleId", &id);
    json::put_text(&mut o, "level", level_word(&f.severity, false));
    json::put(&mut o, "message", one_text_json("text", &m));
    json::put(&mut o, "locations", locations_json(&f.file, false, Some(first_line_of(f.line))));
    let mut p = json::no_fields();
    json::put_text(&mut p, "resource", &f.resource);
    json::put_text(&mut p, "iac_type", &f.iac_type);
    json::put(&mut o, "properties", Json::Obj(p));
    Json::Obj(o)
}

/// The findings of an infrastructure scan as a SARIF document.
pub fn iac_to_sarif(v: &Vec<IacFinding>, target: &str) -> (r: Json)
    ensures
        r@ == document(
            "Strobes IaC"@,
            iac_rules(severity::seen(v@)),
            iac_results(severity::seen(v@)),
            "strobes/iac/"@ + target@,
        ),
{
    let ghost all = severity::seen(v@);
    let ghost want = iac_rules(all);
    let ghost also = iac_results(all);
    let mut rules: Vec<Json> = Vec::new();
    let mut results: Vec<Json> = Vec::new();
    assert(want.take(0) =~= Seq::empty());
    assert(also.take(0) =~= Seq::empty());
    let mut i: usize = 0;
    while i < v.len()
        invariant
            i <= v@.len(),
            all == severity::seen(v@),
            want == iac_rules(all),
            also == iac_results(all),
            json::values(rules@) == want.take(i as int),
            json::values(results@) == also.take(i as int),
        decreases v@.len() - i,
    {
        assert(all[i as int] == v@[i as int]@);
        let a = iac_rule_json(i, &v[i]);
        let b = iac_result_json(i, &v[i]);
        rules.push(a);
        results.push(b);
        assert(want.take(i + 1) =~= want.take(i as int).push(want[i as int]));
        assert(also.take(i + 1) =~= also.take(i as int).push(also[i as int]));
        i += 1;
    }
    assert(want.take(want.len() as int) =~= want);
    assert(also.take(also.len() as int) =~= also);
    let mut id = "strobes/iac/".to_owned();
    id.push_str(target);
    document_json("Strobes IaC", rules, results, &id)
}

// ---- a scan of a running application -------------------------------------------

/// The rule of the finding at that position.
pub open spec fn dast_rule(i: nat, f: findings::DastFindingView) -> json::JsonView {
    json::JsonView::Obj(
        json::no_entries()
            .push(("id"@, json::JsonView::Str(rule_id("STROBES-DAST-"@, i))))
            .push(("shortDescription"@, one_text("text"@, f.title)))
            .push((
                "properties"@,
                json::JsonView::Obj(
                    seq![
                        ("severity"@, json::JsonView::Str(f.severity)),
                    ],
                ),
            )),
    )
}

/// The result of the finding at that position.
pub open spec fn dast_result(i: nat, f: findings::DastFindingView) -> json::JsonView {
    json::JsonView::Obj(
        json::no_entries()
            .push(("ruleId"@, json::JsonView::Str(rule_id("STROBES-DAST-"@, i))))
            .push(("level"@, json::JsonView::Str(sarif_level(f.severity, false))))
            .push(("message"@, one_text("text"@, f.title + "\n\n"@ + f.description)))
            .push(("locations"@, locations(f.url, false, None)))
            .push((
                "properties"@,
                json::JsonView::Obj(
                    json::no_entries()
                        .push(("severity"@, json::JsonView::Str(f.severity)))
                        .push(("parameter"@, json::JsonView::Str(f.parameter)))
                        .push(("method"@, json::JsonView::Str(f.method)))
                        .push(("evidence"@, json::JsonView::Str(f.evidence))),
                ),
            )),
    )
}

/// The rules of the findings, in order.
pub open spec fn dast_rules(v: Seq<findings::DastFindingView>) -> Seq<json::JsonView> {
    v.map(|i: int, f: findings::DastFindingView| dast_rule(i as nat, f))
}

/// The results of the findings, in order.
pub open spec fn dast_results(v: Seq<findings::DastFindingView>) -> Seq<json::JsonView> {
    v.map(|i: int, f: findings::DastFindingView| dast_result(i as nat, f))
}

fn dast_rule_json(i: usize, f: &DastFinding) -> (r: Json)
    requires
        i < usize::MAX,
    ensures
        r@ == dast_rule(i as nat, f@),
{
    let short = f.title.clone();
    let mut p = json::no_fields();
    json::put_text(&mut p, "severity", &f.severity);
    let mut o = json::no_fields();
    let id = rule_id_string("STROBES-DAST-", i);
    json::put_text(&mut o, "id", &id);
    json::put(&mut o, "shortDescription", one_text_json("text", &short));
    json::put(&mut o, "properties", Json::Obj(p));
    Json::Obj(o)
}

fn dast_result_json(i: usize, f: &DastFinding) -> (r: Json)
    requires
        i < usize::MAX,
    ensures
        r@ == dast_result(i as nat, f@),
{
    let mut m = f.title.clone();
    m.push_str("\n\n");
    m.push_str(&f.description);
    let mut o = json::no_fields();
    let id = rule_id_string("STROBES-DAST-", i);
    json::put_text(&mut o, "ruleId", &id);
    json::put_text(&mut o, "level", level_word(&f.severity, false));
    json::put(&mut o, "message", one_text_json("text", &m));
    json::put(&mut o, "locations", locations_json(&f.url, false, None));
    let mut p = json::no_fields();
    json::put_text(&mut p, "severity", &f.severity);
    json::put_text(&mut p, "parameter", &f.parameter);
    json::put_text(&mut p, "method", &f.method);
    json::put_text(&mut p, "evidence", &f.evidence);
    json::put(&mut o, "properties", Json::Obj(p));
    Json::Obj(o)
}

/// The findings of a scan of a running application as a SARIF document.
pub fn dast_to_sarif(v: &Vec<DastFinding>, target: &str) -> (r: Json)
    ensures
        r@ == document(
            "Strobes DAST"@,
            dast_rules(severity::seen(v@)),
            dast_results(severity::seen(v@)),
            "strobes/dast/"@ + target@,
        ),
{
    let ghost all = severity::seen(v@);
    let ghost want = dast_rules(all);
    let ghost also = dast_results(all);
    let mut rules: Vec<Json> = Vec::new();
    let mut results: Vec<Json> = Vec::new();
    assert(want.take(0) =~= Seq::empty());
    assert(also.take(0) =~= Seq::empty());
    let mut i: usize = 0;
    while i < v.len()
        invariant
            i <= v@.len(),
            all == severity::seen(v@),
            want == dast_rules(all),
            also == dast_results(all),
            json::values(rules@) == want.take(i as int),
            json::values(results@) == also.take(i as int),
        decreases v@.len() - i,
    {
        assert(all[i as int] == v@[i as int]@);
        let a = dast_rule_json(i, &v[i]);
        let b = dast_result_json(i, &v[i]);
        rules.push(a);
        results.push(b);
        assert(want.take(i + 1) =~= want.take(i as int).push(want[i as int]));
        assert(also.take(i + 1) =~= also.take(i as int).push(also[i as int]));
        i += 1;
    }
    assert(want.take(want.len() as int) =~= want);
    assert(also.take(also.len() as int) =~= also);
    let mut id = "strobes/dast/".to_owned();
    id.push_str(target);
    document_json("Strobes DAST", rules, results, &id)
}

// ---- the findings of a workspace -----------------------------------------------------------

pub struct FindingView {
    pub id: i64,
    pub title: Seq<char>,
    pub severity_label: Seq<char>,
    pub state_label: Seq<char>,
    pub cvss: Option<Seq<char>>,
    pub asset: Option<Seq<char>>,
    pub description: Seq<char>,
    pub mitigation: Seq<char>,
}

impl View for Finding {
    type V = FindingView;

    open spec fn view(&self) -> FindingView {
        FindingView {
            id: self.id,
            title: self.title@,
            severity_label: self.severity_label@,
            state_label: self.state_label@,
            cvss: text::opt_view(self.cvss),
            asset: text::opt_view(self.asset),
            description: self.description@,
            mitigation: self.mitigation@,
        }
    }
}

impl Rated for Finding {
    open spec fn label(v: FindingView) -> Seq<char> {
        v.severity_label
    }

    fn severity(&self) -> (r: &str) {
        self.severity_label.as_str()
    }

    fn duplicate(&self) -> (r: Finding) {
        Finding {
            id: self.id,
            title: self.title.clone(),
            severity_label: self.severity_label.clone(),
            state_label: self.state_label.clone(),
            cvss: text::clone_opt(&self.cvss),
            asset: text::clone_opt(&self.asset),
            description: self.description.clone(),
            mitigation: self.mitigation.clone(),
        }
    }
}

/// A score as a value, as it is written; null where there is none.
pub open spec fn score_value(s: Option<Seq<char>>) -> json::JsonView {
    match s {
        Some(t) => json::JsonView::Num(t),
        None => json::JsonView::Null,
    }
}

fn put_score(o: &mut Vec<(String, Json)>, s: &Option<String>)
    ensures
        json::fields(final(o)@) == json::fields(old(o)@).push(
            ("cvss"@, score_value(text::opt_view(*s))),
        ),
{
    match s {
        Some(t) => json::put(o, "cvss", Json::Num(t.clone())),
        None => json::put(o, "cvss", Json::Null),
    }
}

/// The id of a finding's rule.
pub open spec fn finding_rule_id(id: i64) -> Seq<char> {
    "STROBES-"@ + digits::dec_int(id as int)
}

fn finding_rule_string(id: i64) -> (r: String)
    ensures
        r@ == finding_rule_id(id),
{
    let mut s = "STROBES-".to_owned();
    let n = digits::i64_to_string(id);
    s.push_str(&n);
    s
}

pub open spec fn finding_rule(f: FindingView) -> json::JsonView {
    json::JsonView::Obj(
        json::no_entries()
            .push(("id"@, json::JsonView::Str(finding_rule_id(f.id))))
            .push(("shortDescription"@, one_text("text"@, f.title)))
            .push(("properties"@, one_text("severity"@, f.severity_label))),
    )
}

pub open spec fn finding_result(f: FindingView) -> json::JsonView {
    json::JsonView::Obj(
        json::no_entries()
            .push(("ruleId"@, json::JsonView::Str(finding_rule_id(f.id))))
            .push(("level"@, json::JsonView::Str(sarif_level(f.severity_label, true))))
            .push((
                "message"@,
                one_text(
                    "text"@,
                    if f.description.len() == 0 {
                        f.title
                    } else {
                        f.title + "\n\n"@ + f.description
                    },
                ),
            ))
            .push(("locations"@, locations(text::text_or(f.asset, "unknown"@), true, None)))
            .push((
                "properties"@,
                json::JsonView::Obj(
                    json::no_entries()
                        .push(("severity"@, json::JsonView::Str(f.severity_label)))
                        .push(("state"@, json::JsonView::Str(f.state_label)))
                        .push(("cvss"@, score_value(f.cvss))),
                ),
            )),
    )
}

/// A finding as a value.
pub open spec fn finding_record(f: FindingView) -> json::JsonView {
    json::JsonView::Obj(
        json::no_entries()
            .push(("id"@, json::JsonView::Num(digits::dec_int(f.id as int))))
            .push(("title"@, json::JsonView::Str(f.title)))
            .push(("severity"@, json::JsonView::Str(f.severity_label)))
            .push(("state"@, json::JsonView::Str(f.state_label)))
            .push(("cvss"@, score_value(f.cvss)))
            .push(("asset"@, json::text_or_null(f.asset)))
            .push(("description"@, json::JsonView::Str(f.description)))
            .push(("mitigation"@, json::JsonView::Str(f.mitigation))),
    )
}

fn finding_rule_json(f: &Finding) -> (r: Json)
    ensures
        r@ == finding_rule(f@),
{
    let mut o = json::no_fields();
    let id = finding_rule_string(f.id);
    json::put_text(&mut o, "id", &id);
    json::put(&mut o, "shortDescription", one_text_json("text", &f.title));
    json::put(&mut o, "properties", one_text_json("severity", &f.severity_label));
    Json::Obj(o)
}

fn finding_result_json(f: &Finding) -> (r: Json)
    ensures
        r@ == finding_result(f@),
{
    let mut body = f.title.clone();
    if text::char_count(&f.description) > 0 {
        body.push_str("\n\n");
        body.push_str(&f.description);
    }
    let uri = text::opt_or(&f.asset, "unknown");
    let mut p = json::no_fields();
    json::put_text(&mut p, "severity", &f.severity_label);
    json::put_text(&mut p, "state", &f.state_label);
    put_score(&mut p, &f.cvss);
    let mut o = json::no_fields();
    let id = finding_rule_string(f.id);
    json::put_text(&mut o, "ruleId", &id);
    json::put_text(&mut o, "level", level_word(&f.severity_label, true));
    json::put(&mut o, "message", one_text_json("text", &body));
    json::put(&mut o, "locations", locations_json(&uri, true, None));
    json::put(&mut o, "properties", Json::Obj(p));
    Json::Obj(o)
}

fn finding_record_json(f: &Finding) -> (r: Json)
    ensures
        r@ == finding_record(f@),
{
    let mut o = json::no_fields();
    json::put(&mut o, "id", Json::Num(digits::i64_to_string(f.id)));
    json::put_text(&mut o, "title", &f.title);
    json::put_text(&mut o, "severity", &f.severity_label);
    json::put_text(&mut o, "state", &f.state_label);
    put_score(&mut o, &f.cvss);
    json::put_opt(&mut o, "asset", &f.asset);
    json::put_text(&mut o, "description", &f.description);
    json::put_text(&mut o, "mitigation", &f.mitigation);
    Json::Obj(o)
}

/// The findings of a workspace as a SARIF document.
pub open spec fn workspace_document(v: Seq<FindingView>, workspace: Seq<char>) -> json::JsonView {
    document(
        "Strobes Security Assessment"@,
        v.map_values(|f: FindingView| finding_rule(f)),
        v.map_values(|f: FindingView| finding_result(f)),
        "strobes/workspace/"@ + workspace,
    )
}

/// The text of the SARIF document of a workspace's findings.
pub fn findings_to_sarif(v: &Vec<Finding>, workspace: &str) -> (r: String)
    ensures
        r@ == json::pretty_text(
            json::normal(workspace_document(severity::seen(v@), workspace@)),
        ),
{
    let ghost all = severity::seen(v@);
    let ghost want = all.map_values(|f: FindingView| finding_rule(f));
    let ghost also = all.map_values(|f: FindingView| finding_result(f));
    let mut rules: Vec<Json> = Vec::new();
    let mut results: Vec<Json> = Vec::new();
    assert(want.take(0) =~= Seq::empty());
    assert(also.take(0) =~= Seq::empty());
    let mut i: usize = 0;
    while i < v.len()
        invariant
            i <= v@.len(),
            all == severity::seen(v@),
            want == all.map_values(|f: FindingView| finding_rule(f)),
            also == all.map_values(|f: FindingView| finding_result(f)),
            json::values(rules@) == want.take(i as int),
            json::values(results@) == also.take(i as int),
        decreases v@.len() - i,
    {
        assert(all[i as int] == v@[i as int]@);
        let a = finding_rule_json(&v[i]);
        let b = finding_result_json(&v[i]);
        rules.push(a);
        results.push(b);
        assert(want.take(i + 1) =~= want.take(i as int).push(want[i as int]));
        assert(also.take(i + 1) =~= also.take(i as int).push(also[i as int]));
        i += 1;
    }
    assert(want.take(want.len() as int) =~= want);
    assert(also.take(also.len() as int) =~= also);
    let mut id = "strobes/workspace/".to_owned();
    id.push_str(workspace);
    let d = document_json("Strobes Security Assessment", rules, results, &id);
    json::to_pretty_text(&d)
}

/// The findings of a workspace as a list of values.
pub open spec fn finding_records(v: Seq<FindingView>) -> json::JsonView {
    json::JsonView::Arr(v.map_values(|f: FindingView| finding_record(f)))
}

/// The text of the list of a workspace's findings.
pub fn findings_to_json(v: &Vec<Finding>) -> (r: String)
    ensures
        r@ == json::pretty_text(json::normal(finding_records(severity::seen(v@)))),
{
    let ghost all = severity::seen(v@);
    let ghost want = all.map_values(|f: FindingView| finding_record(f));
    let mut out: Vec<Json> = Vec::new();
    assert(want.take(0) =~= Seq::empty());
    let mut i: usize = 0;
    while i < v.len()
        invariant
            i <= v@.len(),
            all == severity::seen(v@),
            want == all.map_values(|f: FindingView| finding_record(f)),
            json::values(out@) == want.take(i as int),
        decreases v@.len() - i,
    {
        assert(all[i as int] == v@[i as int]@);
        let a = finding_record_json(&v[i]);
        out.push(a);
        assert(want.take(i + 1) =~= want.take(i as int).push(want[i as int]));
        i += 1;
    }
    assert(want.take(want.len() as int) =~= want);
    json::to_pretty_text(&Json::Arr(out))
}

/// Every finding has one rule and one result, and they carry the same id.
pub proof fn results_name_their_rules(v: Seq<findings::SastFindingView>, i: int)
    requires
        0 <= i < v.len(),
    ensures
        sast_rules(v).len() == v.len(),
        sast_results(v).len() == v.len(),
        json::field(sast_rules(v)[i], "id"@) == json::field(sast_results(v)[i], "ruleId"@),
{
    let id = json::JsonView::Str(rule_id("STROBES-SAST-"@, i as nat));
    reveal_with_fuel(json::field_in, 6);
    reveal_strlit("id");
    reveal_strlit("ruleId");
    reveal_strlit("shortDescription");
    reveal_strlit("properties");
    reveal_strlit("level");
    reveal_strlit("message");
    reveal_strlit("locations");
    assert("shortDescription"@.len() != "id"@.len());
    assert("properties"@.len() != "id"@.len());
    assert("level"@.len() != "ruleId"@.len());
    assert("message"@.len() != "ruleId"@.len());
    assert("locations"@.len() != "ruleId"@.len());
    assert(json::field(sast_rules(v)[i], "id"@) == Some(id));
    assert(json::field(sast_results(v)[i], "ruleId"@) == Some(id));
}

// ---- JSON reports ----------------------------------------------------------------------------

/// The report of a scan that keeps its workspace: code and running
/// applications.
pub open spec fn scan_report(
    target: Seq<char>,
    workspace: Option<Seq<char>>,
    thread: Seq<char>,
    secs: nat,
    found: json::JsonView,
) -> json::JsonView {
    json::JsonView::Obj(
        json::no_entries()
            .push(("scan_target"@, json::JsonView::Str(target)))
            .push(("workspace_id"@, json::text_or_null(workspace)))
            .push(("thread_id"@, json::JsonView::Str(thread)))
            .push(("elapsed_secs"@, json::number(secs)))
            .push(("findings"@, found)),
    )
}

fn scan_report_json(
    target: &str,
    workspace: &Option<String>,
    thread: &str,
    secs: u64,
    found: Json,
) -> (r: Json)
    ensures
        r@ == scan_report(target@, text::opt_view(*workspace), thread@, secs as nat, found@),
{
    let mut o = json::no_fields();
    json::put_text(&mut o, "scan_target", target);
    json::put_opt(&mut o, "workspace_id", workspace);
    json::put_text(&mut o, "thread_id", thread);
    json::put_number(&mut o, "elapsed_secs", secs);
    json::put(&mut o, "findings", found);
    Json::Obj(o)
}

/// What a scan writes: a JSON report, a SARIF document, or nothing for any
/// other format.
pub open spec fn scan_output(
    format: Seq<char>,
    report: json::JsonView,
    sarif: json::JsonView,
) -> Seq<char> {
    if format == "json"@ {
        json::pretty_text(json::normal(report))
    } else if format == "sarif"@ {
        json::pretty_text(json::normal(sarif))
    } else {
        Seq::empty()
    }
}

/// What a code scan writes in a format.
pub fn format_sast_output(
    format: &str,
    v: &Vec<SastFinding>,
    target: &str,
    workspace: &Option<String>,
    thread: &str,
    secs: u64,
) -> (r: String)
    ensures
        r@ == scan_output(
            format@,
            scan_report(
                target@,
                text::opt_view(*workspace),
                thread@,
                secs as nat,
                findings::sast_records(severity::seen(v@)),
            ),
            document(
                "Strobes SAST"@,
                sast_rules(severity::seen(v@)),
                sast_results(severity::seen(v@)),
                "strobes/sast/"@ + target@,
            ),
        ),
{
    if text::str_eq(format, "json") {
        let found = findings::sast_record_list(v);
        json::to_pretty_text(&scan_report_json(target, workspace, thread, secs, found))
    } else if text::str_eq(format, "sarif") {
        json::to_pretty_text(&sast_to_sarif(v, target))
    } else {
        String::new()
    }
}

/// What a scan of a running application writes in a format. The SARIF document
/// names the target by its label.
pub fn format_dast_output(
    format: &str,
    v: &Vec<DastFinding>,
    target: &str,
    label: &str,
    workspace: &Option<String>,
    thread: &str,
    secs: u64,
) -> (r: String)
    ensures
        r@ == scan_output(
            format@,
            scan_report(
                target@,
                text::opt_view(*workspace),
                thread@,
                secs as nat,
                findings::dast_records(severity::seen(v@)),
            ),
            document(
                "Strobes DAST"@,
                dast_rules(severity::seen(v@)),
                dast_results(severity::seen(v@)),
                "strobes/dast/"@ + label@,
            ),
        ),
{
    if text::str_eq(format, "json") {
        let found = findings::dast_record_list(v);
        json::to_pretty_text(&scan_report_json(target, workspace, thread, secs, found))
    } else if text::str_eq(format, "sarif") {
        json::to_pretty_text(&dast_to_sarif(v, label))
    } else {
        String::new()
    }
}

/// The report of a dependency scan.
pub open spec fn sca_report(
    target: Seq<char>,
    thread: Seq<char>,
    secs: nat,
    total: nat,
    skip_ai: bool,
    found: json::JsonView,
) -> json::JsonView {
    json::JsonView::Obj(
        json::no_entries()
            .push(("scan_target"@, json::JsonView::Str(target)))
            .push(("thread_id"@, json::JsonView::Str(thread)))
            .push(("elapsed_secs"@, json::number(secs)))
            .push(("total_cves"@, json::number(total)))
            .push(("skip_ai"@, json::JsonView::Bool(skip_ai)))
            .push(("findings"@, found)),
    )
}

/// What a dependency scan writes in a format, over `total` known
/// vulnerabilities.
pub fn format_sca_output(
    format: &str,
    v: &Vec<ScaFinding>,
    total: usize,
    target: &str,
    thread: &str,
    secs: u64,
    skip_ai: bool,
) -> (r: String)
    ensures
        r@ == scan_output(
            format@,
            sca_report(
                target@,
                thread@,
                secs as nat,
                total as nat,
                skip_ai,
                findings::sca_records(severity::seen(v@)),
            ),
            document(
                "Strobes SCA"@,
                sca_rules(severity::seen(v@)),
                sca_results(severity::seen(v@)),
                "strobes/sca/"@ + target@,
            ),
        ),
{
    if text::str_eq(format, "json") {
        let mut o = json::no_fields();
        json::put_text(&mut o, "scan_target", target);
        json::put_text(&mut o, "thread_id", thread);
        json::put_number(&mut o, "elapsed_secs", secs);
        json::put(&mut o, "total_cves", Json::Num(digits::usize_to_string(total)));
        json::put(&mut o, "skip_ai", Json::Bool(skip_ai));
        json::put(&mut o, "findings", findings::sca_record_list(v));
        json::to_pretty_text(&Json::Obj(o))
    } else if text::str_eq(format, "sarif") {
        json::to_pretty_text(&sca_to_sarif(v, target))
    } else {
        String::new()
    }
}

/// The report of an infrastructure scan.
pub open spec fn iac_report(
    target: Seq<char>,
    thread: Seq<char>,
    secs: nat,
    files: nat,
    found: json::JsonView,
) -> json::JsonView {
    json::JsonView::Obj(
        json::no_entries()
            .push(("scan_target"@, json::JsonView::Str(target)))
            .push(("thread_id"@, json::JsonView::Str(thread)))
            .push(("elapsed_secs"@, json::number(secs)))
            .push(("iac_files"@, json::number(files)))
            .push(("findings"@, found)),
    )
}

/// What an infrastructure scan of so many files writes in a format.
pub fn format_iac_output(
    format: &str,
    v: &Vec<IacFinding>,
    files: usize,
    target: &str,
    thread: &str,
    secs: u64,
) -> (r: String)
    ensures
        r@ == scan_output(
            format@,
            iac_report(
                target@,
                thread@,
                secs as nat,
                files as nat,
                findings::iac_records(severity::seen(v@)),
            ),
            document(
                "Strobes IaC"@,
                iac_rules(severity::seen(v@)),
                iac_results(severity::seen(v@)),
                "strobes/iac/"@ + target@,
            ),
        ),
{
    if text::str_eq(format, "json") {
        let mut o = json::no_fields();
        json::put_text(&mut o, "scan_target", target);
        json::put_text(&mut o, "thread_id", thread);
        json::put_number(&mut o, "elapsed_secs", secs);
        json::put(&mut o, "iac_files", Json::Num(digits::usize_to_string(files)));
        json::put(&mut o, "findings", findings::iac_record_list(v));
        json::to_pretty_text(&Json::Obj(o))
    } else if text::str_eq(format, "sarif") {
        json::to_pretty_text(&iac_to_sarif(v, target))
    } else {
        String::new()
    }
}

} // verus!
