//! How a scan ends: what is shown, what is written and where, and whether the
//! build fails.

use vstd::prelude::*;
use crate::digits;
use crate::findings;
use crate::findings::{DastFinding, IacFinding, SastFinding, ScaFinding};
use crate::osv;
use crate::osv::OsvVuln;
use crate::report;
use crate::sarif;
use crate::severity;
use crate::text;

verus! {

broadcast use {
    vstd::seq::group_seq_axioms,
    vstd::string::group_string_axioms,
    text::views_push,
    text::views_empty,
};

/// Where the output of a scan goes.
pub enum Delivery {
    Nothing,
    Print(String),
    /// A file, and what is said once it is written.
    File { path: String, content: String, note: String },
}

pub enum DeliveryView {
    Nothing,
    Print(Seq<char>),
    File { path: Seq<char>, content: Seq<char>, note: Seq<char> },
}

impl View for Delivery {
    type V = DeliveryView;

    open spec fn view(&self) -> DeliveryView {
        match self {
            Delivery::Nothing => DeliveryView::Nothing,
            Delivery::Print(c) => DeliveryView::Print(c@),
            Delivery::File { path, content, note } => DeliveryView::File {
                path: path@,
                content: content@,
                note: note@,
            },
        }
    }
}

/// Where the output of a scan goes: to the file that is named, or else to the
/// standard output. Without structured output the file gets what the agent said,
/// where that is kept.
pub open spec fn delivered(
    content: Seq<char>,
    path: Option<Seq<char>>,
    said: Option<Seq<char>>,
) -> DeliveryView {
    match path {
        Some(p) => if content.len() > 0 {
            DeliveryView::File { path: p, content, note: "results saved → "@ + p }
        } else {
            match said {
                Some(t) => DeliveryView::File {
                    path: p,
                    content: t,
                    note: "raw output saved → "@ + p,
                },
                None => DeliveryView::Nothing,
            }
        },
        None => if content.len() > 0 {
            DeliveryView::Print(content)
        } else {
            DeliveryView::Nothing
        },
    }
}

/// Where the output of a scan goes.
pub fn deliver(content: String, path: &Option<String>, said: &Option<String>) -> (r: Delivery)
    ensures
        r@ == delivered(content@, text::opt_view(*path), text::opt_view(*said)),
{
    match path {
        Some(p) => {
            if !content.as_str().is_empty() {
                let mut note = "results saved → ".to_owned();
                note.push_str(p);
                Delivery::File { path: p.clone(), content, note }
            } else {
                match said {
                    Some(t) => {
                        let mut note = "raw output saved → ".to_owned();
                        note.push_str(p);
                        Delivery::File { path: p.clone(), content: t.clone(), note }
                    },
                    None => Delivery::Nothing,
                }
            }
        },
        None => {
            if !content.as_str().is_empty() {
                Delivery::Print(content)
            } else {
                Delivery::Nothing
            }
        },
    }
}

/// How a scan ends.
pub struct Verdict {
    pub summary: String,
    pub delivery: Delivery,
    /// Why the build fails, where it does.
    pub error: Option<String>,
}

pub struct VerdictView {
    pub summary: Seq<char>,
    pub delivery: DeliveryView,
    pub error: Option<Seq<char>>,
}

impl View for Verdict {
    type V = VerdictView;

    open spec fn view(&self) -> VerdictView {
        VerdictView {
            summary: self.summary@,
            delivery: self.delivery@,
            error: text::opt_view(self.error),
        }
    }
}

/// What was asked of a scan: the format and the file of its output, and from
/// which severity on the build fails.
pub struct Wanted {
    pub format: String,
    pub path: Option<String>,
    pub fail_on: Option<String>,
}

/// What a scan was of.
pub struct Subject {
    pub target: String,
    pub workspace: Option<String>,
    pub thread: String,
    pub secs: u64,
}

// ---- code -------------------------------------------------------------------------------------------

/// How a scan of code ends; the findings are ranked first.
pub open spec fn sast_end(
    v: Seq<findings::SastFindingView>,
    s: Subject,
    said: Seq<char>,
    w: Wanted,
) -> VerdictView {
    let r = severity::ranked::<SastFinding>(v);
    let content = sarif::scan_output(
        w.format@,
        sarif::scan_report(
            s.target@,
            text::opt_view(s.workspace),
            s.thread@,
            s.secs as nat,
            findings::sast_records(r),
        ),
        sarif::document(
            "Strobes SAST"@,
            sarif::sast_rules(r),
            sarif::sast_results(r),
            "strobes/sast/"@ + s.target@,
        ),
    );
    VerdictView {
        summary: report::sast_summary(r, s.target@, s.secs as nat),
        delivery: delivered(content, text::opt_view(w.path), Some(said)),
        error: severity::gate_text::<SastFinding>(r, text::opt_view(w.fail_on), ""@),
    }
}

/// How a scan of code ends.
pub fn conclude_sast(v: &Vec<SastFinding>, s: &Subject, said: String, w: &Wanted) -> (r: Verdict)
    ensures
        r@ == sast_end(severity::seen(v@), *s, said@, *w),
{
    let ranked = severity::rank(v);
    let summary = report::print_sast_summary(&ranked, &s.target, s.secs);
    let content = sarif::format_sast_output(
        &w.format,
        &ranked,
        &s.target,
        &s.workspace,
        &s.thread,
        s.secs,
    );
    let delivery = deliver(content, &w.path, &Some(said));
    let error = severity::gate(&ranked, &w.fail_on, "");
    Verdict { summary, delivery, error }
}

// ---- running applications ---------------------------------------------------------------------------

/// How a scan of a running application ends. `label` is the target without its
/// scheme.
pub open spec fn dast_end(
    v: Seq<findings::DastFindingView>,
    s: Subject,
    label: Seq<char>,
    said: Seq<char>,
    w: Wanted,
) -> VerdictView {
    let r = severity::ranked::<DastFinding>(v);
    let content = sarif::scan_output(
        w.format@,
        sarif::scan_report(
            s.target@,
            text::opt_view(s.workspace),
            s.thread@,
            s.secs as nat,
            findings::dast_records(r),
        ),
        sarif::document(
            "Strobes DAST"@,
            sarif::dast_rules(r),
            sarif::dast_results(r),
            "strobes/dast/"@ + label,
        ),
    );
    VerdictView {
        summary: report::dast_summary(r, s.target@, s.secs as nat),
        delivery: delivered(content, text::opt_view(w.path), Some(said)),
        error: severity::gate_text::<DastFinding>(r, text::opt_view(w.fail_on), ""@),
    }
}

/// How a scan of a running application ends.
pub fn conclude_dast(
    v: &Vec<DastFinding>,
    s: &Subject,
    label: &str,
    said: String,
    w: &Wanted,
) -> (r: Verdict)
    ensures
        r@ == dast_end(severity::seen(v@), *s, label@, said@, *w),
{
    let ranked = severity::rank(v);
    let summary = report::print_dast_summary(&ranked, &s.target, s.secs);
    let content = sarif::format_dast_output(
        &w.format,
        &ranked,
        &s.target,
        label,
        &s.workspace,
        &s.thread,
        s.secs,
    );
    let delivery = deliver(content, &w.path, &Some(said));
    let error = severity::gate(&ranked, &w.fail_on, "");
    Verdict { summary, delivery, error }
}

// ---- infrastructure -----------------------------------------------------------------------------------

/// How a scan of infrastructure files ends.
pub open spec fn iac_end(
    v: Seq<findings::IacFindingView>,
    files: nat,
    s: Subject,
    w: Wanted,
) -> VerdictView {
    let r = severity::ranked::<IacFinding>(v);
    let content = sarif::scan_output(
        w.format@,
        sarif::iac_report(s.target@, s.thread@, s.secs as nat, files, findings::iac_records(r)),
        sarif::document(
            "Strobes IaC"@,
            sarif::iac_rules(r),
            sarif::iac_results(r),
            "strobes/iac/"@ + s.target@,
        ),
    );
    VerdictView {
        summary: report::iac_summary(r, s.target@, s.secs as nat, files),
        delivery: delivered(content, text::opt_view(w.path), None),
        error: severity::gate_text::<IacFinding>(r, text::opt_view(w.fail_on), " IaC"@),
    }
}

/// How a scan of infrastructure files ends.
pub fn conclude_iac(v: &Vec<IacFinding>, files: usize, s: &Subject, w: &Wanted) -> (r: Verdict)
    ensures
        r@ == iac_end(severity::seen(v@), files as nat, *s, *w),
{
    let ranked = severity::rank(v);
    let summary = report::print_iac_summary(&ranked, &s.target, s.secs, files);
    let content = sarif::format_iac_output(
        &w.format,
        &ranked,
        files,
        &s.target,
        &s.thread,
        s.secs,
    );
    let delivery = deliver(content, &w.path, &None);
    let error = severity::gate(&ranked, &w.fail_on, " IaC");
    Verdict { summary, delivery, error }
}

// ---- dependencies ---------------------------------------------------------------------------------------

/// What a scan of dependencies does with what is known of them.
pub enum ScaPlan {
    /// Nothing is known that is severe enough: this is shown.
    Clean(String),
    /// What is known is reported as it is.
    Report(Verdict),
    /// The agent looks into these.
    Analyze(Vec<OsvVuln>),
}

/// The output of a scan of dependencies.
pub open spec fn sca_content(
    w: Wanted,
    s: Subject,
    r: Seq<findings::ScaFindingView>,
    total: nat,
    skip_ai: bool,
) -> Seq<char> {
    sarif::scan_output(
        w.format@,
        sarif::sca_report(
            s.target@,
            s.thread@,
            s.secs as nat,
            total,
            skip_ai,
            findings::sca_records(r),
        ),
        sarif::document(
            "Strobes SCA"@,
            sarif::sca_rules(r),
            sarif::sca_results(r),
            "strobes/sca/"@ + s.target@,
        ),
    )
}

/// How a scan of dependencies ends that the agent does not look into: every
/// vulnerability is reported.
pub open spec fn sca_unanalyzed_end(
    v: Seq<osv::OsvVulnView>,
    s: Subject,
    w: Wanted,
) -> VerdictView {
    let shown = v.map_values(|x: osv::OsvVulnView| osv::unanalyzed(x, 300));
    VerdictView {
        summary: report::sca_summary(
            v.len(),
            Seq::empty(),
            shown,
            s.target@,
            s.secs as nat,
            true,
        ),
        delivery: delivered(
            sca_content(w, s, shown, v.len(), true),
            text::opt_view(w.path),
            None,
        ),
        error: severity::gate_text::<ScaFinding>(shown, text::opt_view(w.fail_on), " SCA"@),
    }
}

/// What a scan of dependencies does with the vulnerabilities that are known.
pub open spec fn sca_plan_is(
    r: ScaPlan,
    v: Seq<osv::OsvVulnView>,
    least: Seq<char>,
    skip_ai: bool,
    s: Subject,
    w: Wanted,
) -> bool {
    let severe = severity::at_least::<OsvVuln>(v, severity::level(least), v.len() as int);
    if severe.len() == 0 {
        r matches ScaPlan::Clean(t) && t@ == report::sca_summary(
            0,
            Seq::empty(),
            Seq::empty(),
            s.target@,
            0,
            skip_ai,
        )
    } else if skip_ai {
        r matches ScaPlan::Report(x) && x@ == sca_unanalyzed_end(severe, s, w)
    } else {
        r matches ScaPlan::Analyze(x) && severity::seen(x@) == severe
    }
}

fn conclude_unanalyzed(v: &Vec<OsvVuln>, s: &Subject, w: &Wanted) -> (r: Verdict)
    ensures
        r@ == sca_unanalyzed_end(severity::seen(v@), *s, *w),
{
    let shown = osv::unanalyzed_findings(v, 300);
    let none: Vec<ScaFinding> = Vec::new();
    assert(severity::seen(none@) =~= Seq::<findings::ScaFindingView>::empty());
    assert(severity::seen(v@).len() == v@.len());
    let summary = report::print_sca_summary(v.len(), &none, &shown, &s.target, s.secs, true);
    let content = sarif::format_sca_output(
        &w.format,
        &shown,
        v.len(),
        &s.target,
        &s.thread,
        s.secs,
        true,
    );
    let delivery = deliver(content, &w.path, &None);
    let error = severity::gate(&shown, &w.fail_on, " SCA");
    Verdict { summary, delivery, error }
}

/// What a scan of dependencies does with the vulnerabilities that are known:
/// those below a severity do not count.
pub fn plan_sca(
    v: &Vec<OsvVuln>,
    least: &str,
    skip_ai: bool,
    s: &Subject,
    w: &Wanted,
) -> (r: ScaPlan)
    ensures
        sca_plan_is(r, severity::seen(v@), least@, skip_ai, *s, *w),
{
    let severe = severity::keep_at_least(v, least);
    assert(severity::seen(severe@).len() == severe@.len());
    assert(severity::seen(v@).len() == v@.len());
    if severe.len() == 0 {
        let none: Vec<ScaFinding> = Vec::new();
        assert(severity::seen(none@) =~= Seq::<findings::ScaFindingView>::empty());
        ScaPlan::Clean(report::print_sca_summary(0, &none, &none, &s.target, 0, skip_ai))
    } else if skip_ai {
        ScaPlan::Report(conclude_unanalyzed(&severe, s, w))
    } else {
        ScaPlan::Analyze(severe)
    }
}

/// How a scan of dependencies ends that the agent looked into.
pub open spec fn sca_end(
    v: Seq<findings::ScaFindingView>,
    total: nat,
    s: Subject,
    w: Wanted,
) -> VerdictView {
    let r = severity::ranked::<ScaFinding>(v);
    VerdictView {
        summary: report::sca_summary(total, r, r, s.target@, s.secs as nat, false),
        delivery: delivered(sca_content(w, s, r, total, false), text::opt_view(w.path), None),
        error: severity::gate_text::<ScaFinding>(r, text::opt_view(w.fail_on), " SCA"@),
    }
}

/// How a scan of dependencies ends that the agent looked into. `total` is the
/// number of vulnerabilities that were known.
pub fn conclude_sca(v: &Vec<ScaFinding>, total: usize, s: &Subject, w: &Wanted) -> (r: Verdict)
    ensures
        r@ == sca_end(severity::seen(v@), total as nat, *s, *w),
{
    let ranked = severity::rank(v);
    let summary = report::print_sca_summary(total, &ranked, &ranked, &s.target, s.secs, false);
    let content = sarif::format_sca_output(
        &w.format,
        &ranked,
        total,
        &s.target,
        &s.thread,
        s.secs,
        false,
    );
    let delivery = deliver(content, &w.path, &None);
    let error = severity::gate(&ranked, &w.fail_on, " SCA");
    Verdict { summary, delivery, error }
}

/// The number of vulnerabilities that were found, in words.
pub fn found_line(n: usize, least: &str) -> (r: String)
    ensures
        r@ == "  "@ + digits::dec(n as nat) + " CVE(s) found (severity >= "@ + least@ + ")"@,
{
    let mut s = "  ".to_owned();
    let d = digits::usize_to_string(n);
    s.push_str(&d);
    s.push_str(" CVE(s) found (severity >= ");
    s.push_str(least);
    s.push_str(")");
    s
}

} // verus!
