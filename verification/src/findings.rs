//! What the scanners find.

use vstd::prelude::*;
use crate::json;
use crate::json::Json;
use crate::severity;
use crate::severity::Rated;
use crate::text;

verus! {

broadcast use {
    vstd::seq::group_seq_axioms,
    vstd::string::group_string_axioms,
    text::views_push,
    text::views_empty,
    json::fields_push,
    json::fields_empty,
    json::values_push,
    json::values_empty,
};

/// A line number as a value; null where there is none.
pub open spec fn line_value(l: Option<u64>) -> json::JsonView {
    match l {
        Some(n) => json::number(n as nat),
        None => json::JsonView::Null,
    }
}

fn put_line(o: &mut Vec<(String, Json)>, key: &str, l: Option<u64>)
    ensures
        json::fields(final(o)@) == json::fields(old(o)@).push((key@, line_value(l))),
{
    match l {
        Some(n) => json::put_number(o, key, n),
        None => json::put(o, key, Json::Null),
    }
}

/// A finding in source code.
#[derive(Clone, Debug)]
pub struct SastFinding {
    pub severity: String,
    pub title: String,
    pub file: String,
    pub line: Option<u64>,
    pub description: String,
    pub fix: String,
}

pub struct SastFindingView {
    pub severity: Seq<char>,
    pub title: Seq<char>,
    pub file: Seq<char>,
    pub line: Option<u64>,
    pub description: Seq<char>,
    pub fix: Seq<char>,
}

impl View for SastFinding {
    type V = SastFindingView;

    open spec fn view(&self) -> SastFindingView {
        SastFindingView {
            severity: self.severity@,
            title: self.title@,
            file: self.file@,
            line: self.line,
            description: self.description@,
            fix: self.fix@,
        }
    }
}

impl Rated for SastFinding {
    open spec fn label(v: SastFindingView) -> Seq<char> {
        v.severity
    }

    fn severity(&self) -> (r: &str) {
        self.severity.as_str()
    }

    fn duplicate(&self) -> (r: SastFinding) {
        SastFinding {
            severity: self.severity.clone(),
            title: self.title.clone(),
            file: self.file.clone(),
            line: self.line,
            description: self.description.clone(),
            fix: self.fix.clone(),
        }
    }
}

/// The finding as a value, every field under its name.
pub open spec fn sast_record(f: SastFindingView) -> json::JsonView {
    json::JsonView::Obj(
        seq![
            ("severity"@, json::JsonView::Str(f.severity)),
            ("title"@, json::JsonView::Str(f.title)),
            ("file"@, json::JsonView::Str(f.file)),
            ("line"@, line_value(f.line)),
            ("description"@, json::JsonView::Str(f.description)),
            ("fix"@, json::JsonView::Str(f.fix)),
        ],
    )
}

impl SastFinding {
    /// The finding as a value, every field under its name.
    pub fn to_json(&self) -> (r: Json)
        ensures
            r@ == sast_record(self@),
    {
        let mut o = json::no_fields();
        json::put_text(&mut o, "severity", &self.severity);
        json::put_text(&mut o, "title", &self.title);
        json::put_text(&mut o, "file", &self.file);
        put_line(&mut o, "line", self.line);
        json::put_text(&mut o, "description", &self.description);
        json::put_text(&mut o, "fix", &self.fix);
        let j = Json::Obj(o);
        assert(j@->Obj_0 =~= sast_record(self@)->Obj_0);
        j
    }
}

/// The findings as a list of values.
pub open spec fn sast_records(v: Seq<SastFindingView>) -> json::JsonView {
    json::JsonView::Arr(v.map_values(|f: SastFindingView| sast_record(f)))
}

/// The findings as a list of values.
pub fn sast_record_list(v: &Vec<SastFinding>) -> (r: Json)
    ensures
        r@ == sast_records(severity::seen(v@)),
{
    let ghost all = severity::seen(v@);
    let ghost want = all.map_values(|f: SastFindingView| sast_record(f));
    let mut out: Vec<Json> = Vec::new();
    assert(want.take(0) =~= Seq::empty());
    let mut i: usize = 0;
    while i < v.len()
        invariant
            i <= v@.len(),
            all == severity::seen(v@),
            want == all.map_values(|f: SastFindingView| sast_record(f)),
            json::values(out@) == want.take(i as int),
        decreases v@.len() - i,
    {
        assert(all[i as int] == v@[i as int]@);
        let j = v[i].to_json();
        out.push(j);
        assert(want.take(i + 1) =~= want.take(i as int).push(want[i as int]));
        i += 1;
    }
    assert(want.take(want.len() as int) =~= want);
    Json::Arr(out)
}

/// A finding in a dependency, with what is known of its reach.
#[derive(Clone, Debug)]
pub struct ScaFinding {
    pub severity: String,
    pub title: String,
    pub cve_id: String,
    pub package: String,
    pub version: String,
    pub is_direct: bool,
    pub via: Vec<String>,
    pub fix_version: String,
    pub reachable: bool,
    pub reachability_confidence: String,
    pub description: String,
    pub ai_reasoning: String,
}

pub struct ScaFindingView {
    pub severity: Seq<char>,
    pub title: Seq<char>,
    pub cve_id: Seq<char>,
    pub package: Seq<char>,
    pub version: Seq<char>,
    pub is_direct: bool,
    pub via: Seq<Seq<char>>,
    pub fix_version: Seq<char>,
    pub reachable: bool,
    pub reachability_confidence: Seq<char>,
    pub description: Seq<char>,
    pub ai_reasoning: Seq<char>,
}

impl View for ScaFinding {
    type V = ScaFindingView;

    open spec fn view(&self) -> ScaFindingView {
        ScaFindingView {
            severity: self.severity@,
            title: self.title@,
            cve_id: self.cve_id@,
            package: self.package@,
            version: self.version@,
            is_direct: self.is_direct,
            via: text::views(self.via@),
            fix_version: self.fix_version@,
            reachable: self.reachable,
            reachability_confidence: self.reachability_confidence@,
            description: self.description@,
            ai_reasoning: self.ai_reasoning@,
        }
    }
}

impl Rated for ScaFinding {
    open spec fn label(v: ScaFindingView) -> Seq<char> {
        v.severity
    }

    fn severity(&self) -> (r: &str) {
        self.severity.as_str()
    }

    fn duplicate(&self) -> (r: ScaFinding) {
        ScaFinding {
            severity: self.severity.clone(),
            title: self.title.clone(),
            cve_id: self.cve_id.clone(),
            package: self.package.clone(),
            version: self.version.clone(),
            is_direct: self.is_direct,
            via: text::clone_strings(&self.via),
            fix_version: self.fix_version.clone(),
            reachable: self.reachable,
            reachability_confidence: self.reachability_confidence.clone(),
            description: self.description.clone(),
            ai_reasoning: self.ai_reasoning.clone(),
        }
    }
}

/// The finding as a value, every field under its name.
pub open spec fn sca_record(f: ScaFindingView) -> json::JsonView {
    json::JsonView::Obj(
        seq![
            ("severity"@, json::JsonView::Str(f.severity)),
            ("title"@, json::JsonView::Str(f.title)),
            ("cve_id"@, json::JsonView::Str(f.cve_id)),
            ("package"@, json::JsonView::Str(f.package)),
            ("version"@, json::JsonView::Str(f.version)),
            ("is_direct"@, json::JsonView::Bool(f.is_direct)),
            ("via"@, json::text_list(f.via)),
            ("fix_version"@, json::JsonView::Str(f.fix_version)),
            ("reachable"@, json::JsonView::Bool(f.reachable)),
            ("reachability_confidence"@, json::JsonView::Str(f.reachability_confidence)),
            ("description"@, json::JsonView::Str(f.description)),
            ("ai_reasoning"@, json::JsonView::Str(f.ai_reasoning)),
        ],
    )
}

impl ScaFinding {
    /// The finding as a value, every field under its name.
    pub fn to_json(&self) -> (r: Json)
        ensures
            r@ == sca_record(self@),
    {
        let mut o = json::no_fields();
        json::put_text(&mut o, "severity", &self.severity);
        json::put_text(&mut o, "title", &self.title);
        json::put_text(&mut o, "cve_id", &self.cve_id);
        json::put_text(&mut o, "package", &self.package);
        json::put_text(&mut o, "version", &self.version);
        json::put(&mut o, "is_direct", Json::Bool(self.is_direct));
        json::put(&mut o, "via", json::list_of_texts(&self.via));
        json::put_text(&mut o, "fix_version", &self.fix_version);
        json::put(&mut o, "reachable", Json::Bool(self.reachable));
        json::put_text(&mut o, "reachability_confidence", &self.reachability_confidence);
        json::put_text(&mut o, "description", &self.description);
        json::put_text(&mut o, "ai_reasoning", &self.ai_reasoning);
        let j = Json::Obj(o);
        assert(j@->Obj_0 =~= sca_record(self@)->Obj_0);
        j
    }
}

/// The findings as a list of values.
pub open spec fn sca_records(v: Seq<ScaFindingView>) -> json::JsonView {
    json::JsonView::Arr(v.map_values(|f: ScaFindingView| sca_record(f)))
}

/// The findings as a list of values.
pub fn sca_record_list(v: &Vec<ScaFinding>) -> (r: Json)
    ensures
        r@ == sca_records(severity::seen(v@)),
{
    let ghost all = severity::seen(v@);
    let ghost want = all.map_values(|f: ScaFindingView| sca_record(f));
    let mut out: Vec<Json> = Vec::new();
    assert(want.take(0) =~= Seq::empty());
    let mut i: usize = 0;
    while i < v.len()
        invariant
            i <= v@.len(),
            all == severity::seen(v@),
            want == all.map_values(|f: ScaFindingView| sca_record(f)),
            json::values(out@) == want.take(i as int),
        decreases v@.len() - i,
    {
        assert(all[i as int] == v@[i as int]@);
        let j = v[i].to_json();
        out.push(j);
        assert(want.take(i + 1) =~= want.take(i as int).push(want[i as int]));
        i += 1;
    }
    assert(want.take(want.len() as int) =~= want);
    Json::Arr(out)
}

/// A finding in an infrastructure file.
#[derive(Clone, Debug)]
pub struct IacFinding {
    pub severity: String,
    pub title: String,
    pub file: String,
    pub line: Option<u64>,
    pub resource: String,
    pub iac_type: String,
    pub description: String,
    pub fix: String,
}

pub struct IacFindingView {
    pub severity: Seq<char>,
    pub title: Seq<char>,
    pub file: Seq<char>,
    pub line: Option<u64>,
    pub resource: Seq<char>,
    pub iac_type: Seq<char>,
    pub description: Seq<char>,
    pub fix: Seq<char>,
}

impl View for IacFinding {
    type V = IacFindingView;

    open spec fn view(&self) -> IacFindingView {
        IacFindingView {
            severity: self.severity@,
            title: self.title@,
            file: self.file@,
            line: self.line,
            resource: self.resource@,
            iac_type: self.iac_type@,
            description: self.description@,
            fix: self.fix@,
        }
    }
}

impl Rated for IacFinding {
    open spec fn label(v: IacFindingView) -> Seq<char> {
        v.severity
    }

    fn severity(&self) -> (r: &str) {
        self.severity.as_str()
    }

    fn duplicate(&self) -> (r: IacFinding) {
        IacFinding {
            severity: self.severity.clone(),
            title: self.title.clone(),
            file: self.file.clone(),
            line: self.line,
            resource: self.resource.clone(),
            iac_type: self.iac_type.clone(),
            description: self.description.clone(),
            fix: self.fix.clone(),
        }
    }
}

/// The finding as a value, every field under its name.
pub open spec fn iac_record(f: IacFindingView) -> json::JsonView {
    json::JsonView::Obj(
        seq![
            ("severity"@, json::JsonView::Str(f.severity)),
            ("title"@, json::JsonView::Str(f.title)),
            ("file"@, json::JsonView::Str(f.file)),
            ("line"@, line_value(f.line)),
            ("resource"@, json::JsonView::Str(f.resource)),
            ("iac_type"@, json::JsonView::Str(f.iac_type)),
            ("description"@, json::JsonView::Str(f.description)),
            ("fix"@, json::JsonView::Str(f.fix)),
        ],
    )
}

impl IacFinding {
    /// The finding as a value, every field under its name.
    pub fn to_json(&self) -> (r: Json)
        ensures
            r@ == iac_record(self@),
    {
        let mut o = json::no_fields();
        json::put_text(&mut o, "severity", &self.severity);
        json::put_text(&mut o, "title", &self.title);
        json::put_text(&mut o, "file", &self.file);
        put_line(&mut o, "line", self.line);
        json::put_text(&mut o, "resource", &self.resource);
        json::put_text(&mut o, "iac_type", &self.iac_type);
        json::put_text(&mut o, "description", &self.description);
        json::put_text(&mut o, "fix", &self.fix);
        let j = Json::Obj(o);
        assert(j@->Obj_0 =~= iac_record(self@)->Obj_0);
        j
    }
}

/// The findings as a list of values.
pub open spec fn iac_records(v: Seq<IacFindingView>) -> json::JsonView {
    json::JsonView::Arr(v.map_values(|f: IacFindingView| iac_record(f)))
}

/// The findings as a list of values.
pub fn iac_record_list(v: &Vec<IacFinding>) -> (r: Json)
    ensures
        r@ == iac_records(severity::seen(v@)),
{
    let ghost all = severity::seen(v@);
    let ghost want = all.map_values(|f: IacFindingView| iac_record(f));
    let mut out: Vec<Json> = Vec::new();
    assert(want.take(0) =~= Seq::empty());
    let mut i: usize = 0;
    while i < v.len()
        invariant
            i <= v@.len(),
            all == severity::seen(v@),
            want == all.map_values(|f: IacFindingView| iac_record(f)),
            json::values(out@) == want.take(i as int),
        decreases v@.len() - i,
    {
        assert(all[i as int] == v@[i as int]@);
        let j = v[i].to_json();
        out.push(j);
        assert(want.take(i + 1) =~= want.take(i as int).push(want[i as int]));
        i += 1;
    }
    assert(want.take(want.len() as int) =~= want);
    Json::Arr(out)
}

/// A finding in a running application.
#[derive(Clone, Debug)]
pub struct DastFinding {
    pub severity: String,
    pub title: String,
    pub url: String,
    pub parameter: String,
    pub method: String,
    pub request: String,
    pub evidence: String,
    pub description: String,
    pub fix: String,
}

pub struct DastFindingView {
    pub severity: Seq<char>,
    pub title: Seq<char>,
    pub url: Seq<char>,
    pub parameter: Seq<char>,
    pub method: Seq<char>,
    pub request: Seq<char>,
    pub evidence: Seq<char>,
    pub description: Seq<char>,
    pub fix: Seq<char>,
}

impl View for DastFinding {
    type V = DastFindingView;

    open spec fn view(&self) -> DastFindingView {
        DastFindingView {
            severity: self.severity@,
            title: self.title@,
            url: self.url@,
            parameter: self.parameter@,
            method: self.method@,
            request: self.request@,
            evidence: self.evidence@,
            description: self.description@,
            fix: self.fix@,
        }
    }
}

impl Rated for DastFinding {
    open spec fn label(v: DastFindingView) -> Seq<char> {
        v.severity
    }

    fn severity(&self) -> (r: &str) {
        self.severity.as_str()
    }

    fn duplicate(&self) -> (r: DastFinding) {
        DastFinding {
            severity: self.severity.clone(),
            title: self.title.clone(),
            url: self.url.clone(),
            parameter: self.parameter.clone(),
            method: self.method.clone(),
            request: self.request.clone(),
            evidence: self.evidence.clone(),
            description: self.description.clone(),
            fix: self.fix.clone(),
        }
    }
}

/// The finding as a value, every field under its name.
pub open spec fn dast_record(f: DastFindingView) -> json::JsonView {
    json::JsonView::Obj(
        seq![
            ("severity"@, json::JsonView::Str(f.severity)),
            ("title"@, json::JsonView::Str(f.title)),
            ("url"@, json::JsonView::Str(f.url)),
            ("parameter"@, json::JsonView::Str(f.parameter)),
            ("method"@, json::JsonView::Str(f.method)),
            ("request"@, json::JsonView::Str(f.request)),
            ("evidence"@, json::JsonView::Str(f.evidence)),
            ("description"@, json::JsonView::Str(f.description)),
            ("fix"@, json::JsonView::Str(f.fix)),
        ],
    )
}

impl DastFinding {
    /// The finding as a value, every field under its name.
    pub fn to_json(&self) -> (r: Json)
        ensures
            r@ == dast_record(self@),
    {
        let mut o = json::no_fields();
        json::put_text(&mut o, "severity", &self.severity);
        json::put_text(&mut o, "title", &self.title);
        json::put_text(&mut o, "url", &self.url);
        json::put_text(&mut o, "parameter", &self.parameter);
        json::put_text(&mut o, "method", &self.method);
        json::put_text(&mut o, "request", &self.request);
        json::put_text(&mut o, "evidence", &self.evidence);
        json::put_text(&mut o, "description", &self.description);
        json::put_text(&mut o, "fix", &self.fix);
        let j = Json::Obj(o);
        assert(j@->Obj_0 =~= dast_record(self@)->Obj_0);
        j
    }
}

/// The findings as a list of values.
pub open spec fn dast_records(v: Seq<DastFindingView>) -> json::JsonView {
    json::JsonView::Arr(v.map_values(|f: DastFindingView| dast_record(f)))
}

/// The findings as a list of values.
pub fn dast_record_list(v: &Vec<DastFinding>) -> (r: Json)
    ensures
        r@ == dast_records(severity::seen(v@)),
{
    let ghost all = severity::seen(v@);
    let ghost want = all.map_values(|f: DastFindingView| dast_record(f));
    let mut out: Vec<Json> = Vec::new();
    assert(want.take(0) =~= Seq::empty());
    let mut i: usize = 0;
    while i < v.len()
        invariant
            i <= v@.len(),
            all == severity::seen(v@),
            want == all.map_values(|f: DastFindingView| dast_record(f)),
            json::values(out@) == want.take(i as int),
        decreases v@.len() - i,
    {
        assert(all[i as int] == v@[i as int]@);
        let j = v[i].to_json();
        out.push(j);
        assert(want.take(i + 1) =~= want.take(i as int).push(want[i as int]));
        i += 1;
    }
    assert(want.take(want.len() as int) =~= want);
    Json::Arr(out)
}

} // verus!
