//! Verdicts: how a scan ends, what it reports and where that goes.

use vstd::prelude::*;
use crate::digits;
use crate::findings;
use crate::findings::{DastFinding, DastFindingView, IacFinding, IacFindingView, SastFinding, SastFindingView, ScaFinding, ScaFindingView};
use crate::json;
use crate::json::JsonView;
use crate::laws::results;
use crate::laws::results::{holds, says};
use crate::laws::texts;
use crate::osv;
use crate::osv::{OsvVuln, OsvVulnView};
use crate::prompts;
use crate::pieces;
use crate::report;
use crate::sarif;
use crate::sarif::FindingView;
use crate::severity;
use crate::severity::Rated;
use crate::text;
use crate::verdict;
use crate::verdict::{DeliveryView, ScaPlan, Subject, Wanted};

verus! {

broadcast use {vstd::seq::group_seq_axioms, vstd::seq_lib::group_to_multiset_ensures};

/// Ranking loses nothing and adds nothing.
pub proof fn ranking_keeps_each<T: Rated>(v: Seq<T::V>, x: T::V)
    ensures
        severity::ranked::<T>(v).contains(x) <==> v.contains(x),
        severity::ranked::<T>(v).len() == v.len(),
{
    severity::ranking_sorts::<T>(v);
    let r = severity::ranked::<T>(v);
    assert(r.to_multiset().contains(x) <==> r.contains(x));
    assert(v.to_multiset().contains(x) <==> v.contains(x));
    assert(r.to_multiset().len() == r.len());
    assert(v.to_multiset().len() == v.len());
}

proof fn bar_is_the_same<T: Rated>(v: Seq<T::V>, bar: Option<Seq<char>>, kind: Seq<char>)
    ensures
        severity::gate_text::<T>(severity::ranked::<T>(v), bar, kind) is None <==> (
        bar matches Some(t) ==> forall|i: int|
            0 <= i < v.len() ==> severity::level(T::label(#[trigger] v[i])) < severity::level(t)),
{
    let r = severity::ranked::<T>(v);
    severity::gate_passes_iff_all_below::<T>(r, bar, kind);
    if bar is Some {
        let t = bar->0;
        if forall|i: int|
            0 <= i < v.len() ==> severity::level(T::label(#[trigger] v[i])) < severity::level(t) {
            assert forall|i: int| 0 <= i < r.len() implies severity::level(
                T::label(#[trigger] r[i]),
            ) < severity::level(t) by {
                ranking_keeps_each::<T>(v, r[i]);
                assert(r.contains(r[i]));
                let k = choose|k: int| 0 <= k < v.len() && v[k] == r[i];
                assert(severity::level(T::label(v[k])) < severity::level(t));
            }
        }
        if forall|i: int|
            0 <= i < r.len() ==> severity::level(T::label(#[trigger] r[i])) < severity::level(t) {
            assert forall|i: int| 0 <= i < v.len() implies severity::level(
                T::label(#[trigger] v[i]),
            ) < severity::level(t) by {
                ranking_keeps_each::<T>(v, v[i]);
                assert(v.contains(v[i]));
                let k = choose|k: int| 0 <= k < r.len() && r[k] == v[i];
                assert(severity::level(T::label(r[k])) < severity::level(t));
            }
        }
    }
}

/// A scan of code fails exactly where a bar was set and one of its findings is
/// at least as severe.
pub proof fn sast_scans_fail_at_their_bar(v: Seq<SastFindingView>, s: Subject, said: Seq<char>, w: Wanted)
    ensures
        verdict::sast_end(v, s, said, w).error is None <==> (w.fail_on matches Some(t) ==> forall|i: int|
            0 <= i < v.len() ==> severity::level((#[trigger] v[i]).severity) < severity::level(t@)),
{
    bar_is_the_same::<SastFinding>(v, text::opt_view(w.fail_on), ""@);
    if w.fail_on is Some {
        let t = w.fail_on->0@;
        if forall|i: int|
            0 <= i < v.len() ==> severity::level(SastFinding::label(#[trigger] v[i]))
                < severity::level(t) {
            assert forall|i: int| 0 <= i < v.len() implies severity::level(
                (#[trigger] v[i]).severity,
            ) < severity::level(t) by {
                assert(severity::level(SastFinding::label(v[i])) < severity::level(t));
            }
        }
    }
}

/// A scan of a running application fails exactly where a bar was set and one of its findings is
/// at least as severe.
pub proof fn dast_scans_fail_at_their_bar(v: Seq<DastFindingView>, s: Subject, label: Seq<char>, said: Seq<char>, w: Wanted)
    ensures
        verdict::dast_end(v, s, label, said, w).error is None <==> (w.fail_on matches Some(t) ==> forall|i: int|
            0 <= i < v.len() ==> severity::level((#[trigger] v[i]).severity) < severity::level(t@)),
{
    bar_is_the_same::<DastFinding>(v, text::opt_view(w.fail_on), ""@);
    if w.fail_on is Some {
        let t = w.fail_on->0@;
        if forall|i: int|
            0 <= i < v.len() ==> severity::level(DastFinding::label(#[trigger] v[i]))
                < severity::level(t) {
            assert forall|i: int| 0 <= i < v.len() implies severity::level(
                (#[trigger] v[i]).severity,
            ) < severity::level(t) by {
                assert(severity::level(DastFinding::label(v[i])) < severity::level(t));
            }
        }
    }
}

/// A scan of infrastructure fails exactly where a bar was set and one of its findings is
/// at least as severe.
pub proof fn iac_scans_fail_at_their_bar(v: Seq<IacFindingView>, s: Subject, files: nat, w: Wanted)
    ensures
        verdict::iac_end(v, files, s, w).error is None <==> (w.fail_on matches Some(t) ==> forall|i: int|
            0 <= i < v.len() ==> severity::level((#[trigger] v[i]).severity) < severity::level(t@)),
{
    bar_is_the_same::<IacFinding>(v, text::opt_view(w.fail_on), " IaC"@);
    if w.fail_on is Some {
        let t = w.fail_on->0@;
        if forall|i: int|
            0 <= i < v.len() ==> severity::level(IacFinding::label(#[trigger] v[i]))
                < severity::level(t) {
            assert forall|i: int| 0 <= i < v.len() implies severity::level(
                (#[trigger] v[i]).severity,
            ) < severity::level(t) by {
                assert(severity::level(IacFinding::label(v[i])) < severity::level(t));
            }
        }
    }
}

/// A scan of packages fails exactly where a bar was set and one of its findings is
/// at least as severe.
pub proof fn sca_scans_fail_at_their_bar(v: Seq<ScaFindingView>, s: Subject, total: nat, w: Wanted)
    ensures
        verdict::sca_end(v, total, s, w).error is None <==> (w.fail_on matches Some(t) ==> forall|i: int|
            0 <= i < v.len() ==> severity::level((#[trigger] v[i]).severity) < severity::level(t@)),
{
    bar_is_the_same::<ScaFinding>(v, text::opt_view(w.fail_on), " SCA"@);
    if w.fail_on is Some {
        let t = w.fail_on->0@;
        if forall|i: int|
            0 <= i < v.len() ==> severity::level(ScaFinding::label(#[trigger] v[i]))
                < severity::level(t) {
            assert forall|i: int| 0 <= i < v.len() implies severity::level(
                (#[trigger] v[i]).severity,
            ) < severity::level(t) by {
                assert(severity::level(ScaFinding::label(v[i])) < severity::level(t));
            }
        }
    }
}

/// A scan of code or of a running application in no set format saves what the
/// agent said where a file was named, and nothing otherwise; in a set format it
/// writes its report, to the file or to the screen.
pub proof fn code_scans_write_their_report(v: Seq<SastFindingView>, s: Subject, said: Seq<char>, w: Wanted, p: String)
    ensures
        ({
            let d = verdict::sast_end(v, s, said, w).delivery;
            let r = severity::ranked::<SastFinding>(v);
            let json = json::pretty_text(
                json::normal(
                    sarif::scan_report(
                        s.target@,
                        text::opt_view(s.workspace),
                        s.thread@,
                        s.secs as nat,
                        findings::sast_records(r),
                    ),
                ),
            );
            let sarif = json::pretty_text(
                json::normal(
                    sarif::document(
                        "Strobes SAST"@,
                        sarif::sast_rules(r),
                        sarif::sast_results(r),
                        "strobes/sast/"@ + s.target@,
                    ),
                ),
            );
            &&& w.format@ != "json"@ && w.format@ != "sarif"@ && w.path == Some(p) ==> (
            d matches DeliveryView::File { path, content, .. } && path == p@ && content == said)
            &&& w.format@ != "json"@ && w.format@ != "sarif"@ && w.path is None ==> d
                == DeliveryView::Nothing
            &&& w.format@ == "json"@ && json.len() > 0 && w.path == Some(p) ==> (
            d matches DeliveryView::File { path, content, .. } && path == p@ && content == json)
            &&& w.format@ == "json"@ && json.len() > 0 && w.path is None ==> d
                == DeliveryView::Print(json)
            &&& w.format@ == "sarif"@ && sarif.len() > 0 && w.path is None ==> d
                == DeliveryView::Print(sarif)
        }),
{
    reveal_strlit("json");
    reveal_strlit("sarif");
    assert("json"@.len() == 4 && "sarif"@.len() == 5);
}

/// So does a scan of a running application.
pub proof fn application_scans_write_their_report(
    v: Seq<DastFindingView>,
    s: Subject,
    label: Seq<char>,
    said: Seq<char>,
    w: Wanted,
    p: String,
)
    ensures
        ({
            let d = verdict::dast_end(v, s, label, said, w).delivery;
            let r = severity::ranked::<DastFinding>(v);
            let json = json::pretty_text(
                json::normal(
                    sarif::scan_report(
                        s.target@,
                        text::opt_view(s.workspace),
                        s.thread@,
                        s.secs as nat,
                        findings::dast_records(r),
                    ),
                ),
            );
            &&& w.format@ != "json"@ && w.format@ != "sarif"@ && w.path == Some(p) ==> (
            d matches DeliveryView::File { path, content, .. } && path == p@ && content == said)
            &&& w.format@ == "json"@ && json.len() > 0 && w.path is None ==> d
                == DeliveryView::Print(json)
        }),
{
}

/// Scans of infrastructure and of packages write their report in a set format, and
/// nothing otherwise.
pub proof fn other_scans_write_their_report(
    a: Seq<IacFindingView>,
    b: Seq<ScaFindingView>,
    n: nat,
    s: Subject,
    w: Wanted,
)
    ensures
        w.format@ != "json"@ && w.format@ != "sarif"@ ==> verdict::iac_end(a, n, s, w).delivery
            == DeliveryView::Nothing && verdict::sca_end(b, n, s, w).delivery
            == DeliveryView::Nothing,
        ({
            let r = severity::ranked::<IacFinding>(a);
            let json = json::pretty_text(
                json::normal(
                    sarif::iac_report(s.target@, s.thread@, s.secs as nat, n, findings::iac_records(r)),
                ),
            );
            w.format@ == "json"@ && json.len() > 0 && w.path is None ==> verdict::iac_end(
                a,
                n,
                s,
                w,
            ).delivery == DeliveryView::Print(json)
        }),
        ({
            let r = severity::ranked::<ScaFinding>(b);
            let json = json::pretty_text(
                json::normal(
                    sarif::sca_report(
                        s.target@,
                        s.thread@,
                        s.secs as nat,
                        n,
                        false,
                        findings::sca_records(r),
                    ),
                ),
            );
            w.format@ == "json"@ && json.len() > 0 && w.path is None ==> verdict::sca_end(
                b,
                n,
                s,
                w,
            ).delivery == DeliveryView::Print(json)
        }),
{
}

/// The reports name what was scanned, in which thread and for how long, and hold
/// the findings.
pub proof fn reports_hold_the_findings(
    t: Seq<char>,
    ws: Seq<char>,
    th: Seq<char>,
    secs: nat,
    n: nat,
    skip: bool,
    found: JsonView,
)
    ensures
        ({
            let r = sarif::scan_report(t, Some(ws), th, secs, found);
            &&& says(r, "scan_target"@, t) && says(r, "workspace_id"@, ws) && says(r, "thread_id"@, th)
            &&& holds(r, "elapsed_secs"@, JsonView::Num(digits::dec(secs)))
            &&& holds(r, "findings"@, found)
        }),
        ({
            let r = sarif::sca_report(t, th, secs, n, skip, found);
            &&& says(r, "scan_target"@, t) && says(r, "thread_id"@, th)
            &&& holds(r, "total_cves"@, JsonView::Num(digits::dec(n)))
            &&& holds(r, "skip_ai"@, JsonView::Bool(skip))
            &&& holds(r, "findings"@, found)
        }),
        ({
            let r = sarif::iac_report(t, th, secs, n, found);
            &&& says(r, "scan_target"@, t) && says(r, "thread_id"@, th)
            &&& holds(r, "iac_files"@, JsonView::Num(digits::dec(n)))
            &&& holds(r, "findings"@, found)
        }),
{
    match sarif::scan_report(t, Some(ws), th, secs, found) {
        JsonView::Obj(e) => {
            assert(e[0] == ("scan_target"@, JsonView::Str(t)));
            assert(e[1] == ("workspace_id"@, JsonView::Str(ws)));
            assert(e[2] == ("thread_id"@, JsonView::Str(th)));
            assert(e[3] == ("elapsed_secs"@, JsonView::Num(digits::dec(secs))));
            assert(e[4] == ("findings"@, found));
        },
        _ => {},
    }
    match sarif::sca_report(t, th, secs, n, skip, found) {
        JsonView::Obj(e) => {
            assert(e[0] == ("scan_target"@, JsonView::Str(t)));
            assert(e[1] == ("thread_id"@, JsonView::Str(th)));
            assert(e[3] == ("total_cves"@, JsonView::Num(digits::dec(n))));
            assert(e[4] == ("skip_ai"@, JsonView::Bool(skip)));
            assert(e[5] == ("findings"@, found));
        },
        _ => {},
    }
    match sarif::iac_report(t, th, secs, n, found) {
        JsonView::Obj(e) => {
            assert(e[0] == ("scan_target"@, JsonView::Str(t)));
            assert(e[1] == ("thread_id"@, JsonView::Str(th)));
            assert(e[3] == ("iac_files"@, JsonView::Num(digits::dec(n))));
            assert(e[4] == ("findings"@, found));
        },
        _ => {},
    }
}

/// The records of findings are one for each, in their order.
pub proof fn each_finding_is_recorded_once(
    a: Seq<SastFindingView>,
    b: Seq<ScaFindingView>,
    c: Seq<IacFindingView>,
    d: Seq<DastFindingView>,
    k: int,
)
    ensures
        findings::sast_records(a) matches JsonView::Arr(v) && v.len() == a.len() && (0 <= k
            < a.len() ==> v[k] == findings::sast_record(a[k])),
        findings::sca_records(b) matches JsonView::Arr(v) && v.len() == b.len() && (0 <= k < b.len()
            ==> v[k] == findings::sca_record(b[k])),
        findings::iac_records(c) matches JsonView::Arr(v) && v.len() == c.len() && (0 <= k < c.len()
            ==> v[k] == findings::iac_record(c[k])),
        findings::dast_records(d) matches JsonView::Arr(v) && v.len() == d.len() && (0 <= k
            < d.len() ==> v[k] == findings::dast_record(d[k])),
{
}

/// A package scan goes on with what is severe enough: without any it is clean, and
/// otherwise it reports them where the agent is not asked, or has the agent judge
/// exactly them.
pub proof fn package_scans_go_on_with_the_severe(
    r: ScaPlan,
    v: Seq<OsvVulnView>,
    least: Seq<char>,
    skip_ai: bool,
    s: Subject,
    w: Wanted,
    k: int,
)
    requires
        verdict::sca_plan_is(r, v, least, skip_ai, s, w),
    ensures
        (forall|i: int|
            0 <= i < v.len() ==> severity::level((#[trigger] v[i]).severity) < severity::level(least))
            ==> r is Clean,
        0 <= k < v.len() && severity::level(v[k].severity) >= severity::level(least) ==> {
            &&& skip_ai ==> r is Report
            &&& !skip_ai ==> (r matches ScaPlan::Analyze(x) && severity::seen(x@).contains(v[k]))
        },
        r matches ScaPlan::Analyze(x) ==> forall|i: int|
            0 <= i < severity::seen(x@).len() ==> severity::level(
                (#[trigger] severity::seen(x@)[i]).severity,
            ) >= severity::level(least) && v.contains(severity::seen(x@)[i]),
{
    let l = severity::level(least);
    let n = v.len() as int;
    let severe = severity::at_least::<OsvVuln>(v, l, n);
    assert(v.take(n) =~= v);
    if 0 <= k < v.len() && severity::level(v[k].severity) >= l {
        results::severe_ones_are_kept::<OsvVuln>(v, l, n, v[k]);
        assert(v.contains(v[k]));
        assert(severity::level(OsvVuln::label(v[k])) >= l);
        assert(severe.contains(v[k]));
    }
    if forall|i: int|
        0 <= i < v.len() ==> severity::level((#[trigger] v[i]).severity) < severity::level(least) {
        if severe.len() > 0 {
            results::severe_ones_are_kept::<OsvVuln>(v, l, n, severe[0]);
            assert(severe.contains(severe[0]));
            let m = choose|m: int| 0 <= m < v.len() && v[m] == severe[0];
            assert(severity::level(v[m].severity) < l);
            assert(severity::level(OsvVuln::label(severe[0])) >= l);
        }
    }
    assert forall|i: int| 0 <= i < severe.len() implies severity::level(
        (#[trigger] severe[i]).severity,
    ) >= l && v.contains(severe[i]) by {
        results::severe_ones_are_kept::<OsvVuln>(v, l, n, severe[i]);
        assert(severe.contains(severe[i]));
        assert(severity::level(OsvVuln::label(severe[i])) >= l);
    }
}

// ---- summaries ----------------------------------------------------------------------------

proof fn facts_hold(label: Seq<char>, t: Seq<char>)
    ensures
        text::contains(report::fact(label, t), t),
{
    texts::texts_hold_themselves(t);
    texts::longer_texts_hold_it(label, t, t);
    texts::longer_texts_hold_it(report::EDGE@, label + t, t);
    texts::longer_texts_hold_it(report::EDGE@ + (label + t), "\n"@, t);
}

proof fn numbers_hold(n: nat, word: Seq<char>)
    ensures
        text::contains(report::bold_number(n, word), digits::dec(n)),
{
    texts::texts_hold_themselves(digits::dec(n));
    texts::longer_texts_hold_it(report::BOLD@, digits::dec(n), digits::dec(n));
    texts::longer_texts_hold_it(report::BOLD@ + digits::dec(n), report::RESET@, digits::dec(n));
    texts::longer_texts_hold_it(
        report::BOLD@ + digits::dec(n) + report::RESET@,
        word,
        digits::dec(n),
    );
}

proof fn facts_hold_what_they_tell(label: Seq<char>, t: Seq<char>, p: Seq<char>)
    requires
        text::contains(t, p),
    ensures
        text::contains(report::fact(label, t), p),
{
    texts::longer_texts_hold_it(label, t, p);
    texts::longer_texts_hold_it(report::EDGE@, label + t, p);
    texts::longer_texts_hold_it(report::EDGE@ + (label + t), "\n"@, p);
}

/// The summary of a code scan names the target and counts the findings; it shows
/// every finding, the most severe first, or says that there are none.
pub proof fn code_summaries_show_every_finding(v: Seq<SastFindingView>, t: Seq<char>, secs: nat)
    ensures
        ({
            let x = report::sast_summary(v, t, secs);
            &&& text::contains(x, t)
            &&& text::contains(x, digits::dec(v.len()))
            &&& v.len() == 0 ==> text::contains(x, "No security findings — clean scan."@)
            &&& v.len() > 0 ==> text::contains(
                x,
                report::sast_entries(severity::ranked::<SastFinding>(v)),
            )
        }),
{
    let n = report::bold_number(v.len(), " finding(s)"@);
    numbers_hold(v.len(), " finding(s)"@);
    facts_hold("  Target : "@, t);
    facts_hold_what_they_tell("  Total  : "@, n, digits::dec(v.len()));
    let counts = report::count_rows::<SastFinding>(v, true);
    let x0 = "\n"@;
    let x1 = x0 + report::SAST_TOP@;
    let x2 = x1 + report::fact("  Target : "@, t);
    let x3 = x2 + report::fact("  Time   : "@, report::seconds(secs));
    let x4 = x3 + report::fact("  Total  : "@, n);
    let x5 = x4 + report::MIDDLE@;
    let x6 = x5 + counts;
    assert(text::contains(x6, t)) by {
        texts::longer_texts_hold_it(x1, report::fact("  Target : "@, t), t);
        texts::longer_texts_hold_it(x2, report::fact("  Time   : "@, report::seconds(secs)), t);
        texts::longer_texts_hold_it(x3, report::fact("  Total  : "@, n), t);
        texts::longer_texts_hold_it(x4, report::MIDDLE@, t);
        texts::longer_texts_hold_it(x5, counts, t);
    }
    assert(text::contains(x6, digits::dec(v.len()))) by {
        texts::longer_texts_hold_it(x3, report::fact("  Total  : "@, n), digits::dec(v.len()));
        texts::longer_texts_hold_it(x4, report::MIDDLE@, digits::dec(v.len()));
        texts::longer_texts_hold_it(x5, counts, digits::dec(v.len()));
    }
    tails(x6, "No security findings — clean scan."@, report::sast_entries(severity::ranked::<SastFinding>(v)), t);
    tails(x6, "No security findings — clean scan."@, report::sast_entries(severity::ranked::<SastFinding>(v)), digits::dec(v.len()));
}

proof fn tails(top: Seq<char>, clean: Seq<char>, entries: Seq<char>, p: Seq<char>)
    requires
        text::contains(top, p),
    ensures
        text::contains(top + report::clean_row(clean) + report::BOTTOM@, p),
        text::contains(top + report::MIDDLE@ + entries + report::BOTTOM@, p),
        text::contains(top + report::clean_row(clean) + report::BOTTOM@, clean),
        text::contains(top + report::MIDDLE@ + entries + report::BOTTOM@, entries),
{
    let c = report::clean_row(clean);
    let b = report::BOTTOM@;
    let m = report::MIDDLE@;
    texts::longer_texts_hold_it(top, c, p);
    texts::longer_texts_hold_it(top + c, b, p);
    texts::longer_texts_hold_it(top, m, p);
    texts::longer_texts_hold_it(top + m, entries, p);
    texts::longer_texts_hold_it(top + m + entries, b, p);
    let inner = "  "@ + report::GREEN@ + clean + report::RESET@;
    texts::wholes_hold_their_parts("  "@ + report::GREEN@, clean, report::RESET@);
    texts::longer_texts_hold_it(report::EDGE@, inner, clean);
    texts::longer_texts_hold_it(report::EDGE@ + inner, "\n"@, clean);
    texts::longer_texts_hold_it(top, c, clean);
    texts::longer_texts_hold_it(top + c, b, clean);
    texts::texts_hold_themselves(entries);
    texts::longer_texts_hold_it(top + m, entries, entries);
    texts::longer_texts_hold_it(top + m + entries, b, entries);
}

/// So does the summary of a scan of a running application.
pub proof fn application_summaries_show_every_finding(v: Seq<DastFindingView>, t: Seq<char>, secs: nat)
    ensures
        ({
            let x = report::dast_summary(v, t, secs);
            &&& text::contains(x, t)
            &&& text::contains(x, digits::dec(v.len()))
            &&& v.len() == 0 ==> text::contains(x, "No findings — clean scan."@)
            &&& v.len() > 0 ==> text::contains(
                x,
                report::dast_entries(severity::ranked::<DastFinding>(v)),
            )
        }),
{
    let n = report::bold_number(v.len(), " finding(s)"@);
    numbers_hold(v.len(), " finding(s)"@);
    facts_hold("  Target  : "@, t);
    facts_hold_what_they_tell("  Total   : "@, n, digits::dec(v.len()));
    let counts = report::count_rows::<DastFinding>(v, false);
    let x0 = "\n"@;
    let x1 = x0 + report::DAST_TOP@;
    let x2 = x1 + report::fact("  Target  : "@, t);
    let x3 = x2 + report::fact("  Time    : "@, report::seconds(secs));
    let x4 = x3 + report::fact("  Total   : "@, n);
    let x5 = x4 + report::MIDDLE@;
    let x6 = x5 + counts;
    assert(text::contains(x6, t)) by {
        texts::longer_texts_hold_it(x1, report::fact("  Target  : "@, t), t);
        texts::longer_texts_hold_it(x2, report::fact("  Time    : "@, report::seconds(secs)), t);
        texts::longer_texts_hold_it(x3, report::fact("  Total   : "@, n), t);
        texts::longer_texts_hold_it(x4, report::MIDDLE@, t);
        texts::longer_texts_hold_it(x5, counts, t);
    }
    assert(text::contains(x6, digits::dec(v.len()))) by {
        texts::longer_texts_hold_it(x3, report::fact("  Total   : "@, n), digits::dec(v.len()));
        texts::longer_texts_hold_it(x4, report::MIDDLE@, digits::dec(v.len()));
        texts::longer_texts_hold_it(x5, counts, digits::dec(v.len()));
    }
    tails(x6, "No findings — clean scan."@, report::dast_entries(severity::ranked::<DastFinding>(v)), t);
    tails(x6, "No findings — clean scan."@, report::dast_entries(severity::ranked::<DastFinding>(v)), digits::dec(v.len()));
}

/// The summary of an infrastructure scan names the target and counts the files; it
/// shows every finding, or says that there are none.
pub proof fn infrastructure_summaries_show_every_finding(
    v: Seq<IacFindingView>,
    t: Seq<char>,
    secs: nat,
    files: nat,
)
    ensures
        ({
            let x = report::iac_summary(v, t, secs, files);
            &&& text::contains(x, t)
            &&& text::contains(x, digits::dec(files))
            &&& v.len() == 0 ==> text::contains(x, "No misconfigurations found."@)
            &&& v.len() > 0 ==> text::contains(x, report::iac_entries(v))
        }),
{
    let n = report::bold_number(files, " IaC file(s) scanned"@);
    numbers_hold(files, " IaC file(s) scanned"@);
    facts_hold("  Target  : "@, t);
    facts_hold_what_they_tell("  Files   : "@, n, digits::dec(files));
    let counts = report::count_rows::<IacFinding>(v, false);
    let x0 = "\n"@;
    let x1 = x0 + report::IAC_TOP@;
    let x2 = x1 + report::fact("  Target  : "@, t);
    let x3 = x2 + report::fact("  Time    : "@, report::seconds(secs));
    let x4 = x3 + report::fact("  Files   : "@, n);
    let x5 = x4 + report::MIDDLE@;
    assert(text::contains(x5, t)) by {
        texts::longer_texts_hold_it(x1, report::fact("  Target  : "@, t), t);
        texts::longer_texts_hold_it(x2, report::fact("  Time    : "@, report::seconds(secs)), t);
        texts::longer_texts_hold_it(x3, report::fact("  Files   : "@, n), t);
        texts::longer_texts_hold_it(x4, report::MIDDLE@, t);
    }
    assert(text::contains(x5, digits::dec(files))) by {
        texts::longer_texts_hold_it(x3, report::fact("  Files   : "@, n), digits::dec(files));
        texts::longer_texts_hold_it(x4, report::MIDDLE@, digits::dec(files));
    }
    texts::longer_texts_hold_it(x5, counts, t);
    texts::longer_texts_hold_it(x5, counts, digits::dec(files));
    tails(x5, "No misconfigurations found."@, report::iac_entries(v), t);
    tails(x5, "No misconfigurations found."@, report::iac_entries(v), digits::dec(files));
    tails(x5 + counts, "No misconfigurations found."@, report::iac_entries(v), t);
    tails(x5 + counts, "No misconfigurations found."@, report::iac_entries(v), digits::dec(files));
}

/// The summary of a package scan names the target and counts what was found and
/// what is reached; it shows every finding, or says that there are none.
pub proof fn package_summaries_show_every_finding(
    total: nat,
    v: Seq<ScaFindingView>,
    shown: Seq<ScaFindingView>,
    t: Seq<char>,
    secs: nat,
    skip: bool,
)
    ensures
        ({
            let x = report::sca_summary(total, v, shown, t, secs, skip);
            &&& text::contains(x, t)
            &&& text::contains(x, digits::dec(total))
            &&& !skip ==> text::contains(
                x,
                digits::dec(report::reachable_count(v, v.len() as int)),
            )
            &&& shown.len() == 0 ==> text::contains(x, "No impactful vulnerabilities found."@)
            &&& shown.len() > 0 ==> text::contains(
                x,
                report::sca_entries(severity::ranked::<ScaFinding>(shown)),
            )
        }),
{
    let n = report::bold_number(total, " found in dependencies"@);
    let c = report::reachable_count(v, v.len() as int);
    let m = report::bold_number(c, " confirmed/likely reachable"@);
    numbers_hold(total, " found in dependencies"@);
    numbers_hold(c, " confirmed/likely reachable"@);
    facts_hold("  Target  : "@, t);
    facts_hold_what_they_tell("  CVEs    : "@, n, digits::dec(total));
    facts_hold_what_they_tell("  Impact  : "@, m, digits::dec(c));
    let impact = if skip {
        Seq::<char>::empty()
    } else {
        report::fact("  Impact  : "@, m)
    };
    let counts = report::count_rows::<ScaFinding>(shown, false);
    let entries = report::sca_entries(severity::ranked::<ScaFinding>(shown));
    let none = "No impactful vulnerabilities found."@;
    let x0 = "\n"@;
    let x1 = x0 + report::SCA_TOP@;
    let x2 = x1 + report::fact("  Target  : "@, t);
    let x3 = x2 + report::fact("  Time    : "@, report::seconds(secs));
    let x4 = x3 + report::fact("  CVEs    : "@, n);
    let x5 = x4 + impact;
    let x6 = x5 + report::MIDDLE@;
    let x7 = x6 + counts;
    assert(text::contains(x7, t)) by {
        texts::longer_texts_hold_it(x1, report::fact("  Target  : "@, t), t);
        texts::longer_texts_hold_it(x2, report::fact("  Time    : "@, report::seconds(secs)), t);
        texts::longer_texts_hold_it(x3, report::fact("  CVEs    : "@, n), t);
        texts::longer_texts_hold_it(x4, impact, t);
        texts::longer_texts_hold_it(x5, report::MIDDLE@, t);
        texts::longer_texts_hold_it(x6, counts, t);
    }
    assert(text::contains(x7, digits::dec(total))) by {
        texts::longer_texts_hold_it(x3, report::fact("  CVEs    : "@, n), digits::dec(total));
        texts::longer_texts_hold_it(x4, impact, digits::dec(total));
        texts::longer_texts_hold_it(x5, report::MIDDLE@, digits::dec(total));
        texts::longer_texts_hold_it(x6, counts, digits::dec(total));
    }
    tails(x7, none, entries, t);
    tails(x7, none, entries, digits::dec(total));
    if !skip {
        texts::longer_texts_hold_it(x4, impact, digits::dec(c));
        texts::longer_texts_hold_it(x5, report::MIDDLE@, digits::dec(c));
        texts::longer_texts_hold_it(x6, counts, digits::dec(c));
        tails(x7, none, entries, digits::dec(c));
    }
}

/// The findings that are reached are counted one by one.
pub proof fn reached_findings_are_counted(v: Seq<ScaFindingView>, f: ScaFindingView)
    ensures
        report::reachable_count(v.push(f), v.len() as int + 1) == report::reachable_count(
            v,
            v.len() as int,
        ) + (if f.reachable {
            1nat
        } else {
            0
        }),
        report::reachable_count(v, 0) == 0,
{
    same_count(v, v.push(f), v.len() as int);
}

proof fn same_count(v: Seq<ScaFindingView>, w: Seq<ScaFindingView>, n: int)
    requires
        0 <= n <= v.len(),
        n <= w.len(),
        forall|i: int| 0 <= i < n ==> v[i] == w[i],
    ensures
        report::reachable_count(v, n) == report::reachable_count(w, n),
    decreases n,
{
    if n > 0 {
        same_count(v, w, n - 1);
    }
}

/// Findings of each severity are counted, whatever its case.
pub proof fn severities_are_counted<T: Rated>(v: Seq<T::V>, word: Seq<char>, n: int)
    requires
        0 < n <= v.len(),
    ensures
        text::lowercase(T::label(v[n - 1])) == word ==> severity::labelled::<T>(v, word, n)
            == severity::labelled::<T>(v, word, n - 1) + 1,
        text::lowercase(T::label(v[n - 1])) != word ==> severity::labelled::<T>(v, word, n)
            == severity::labelled::<T>(v, word, n - 1),
        severity::labelled::<T>(v, word, 0) == 0,
{
}

// ---- findings of a workspace -------------------------------------------------------------------

/// A finding of a workspace is written as a result of its own rule, at the level
/// of its severity, with its title and description, at its asset.
pub proof fn workspace_findings_are_written(f: FindingView)
    ensures
        ({
            let r = sarif::finding_result(f);
            let q = sarif::finding_rule(f);
            let id = "STROBES-"@ + digits::dec_int(f.id as int);
            &&& says(r, "ruleId"@, id)
            &&& says(q, "id"@, id)
            &&& says(r, "level"@, sarif::sarif_level(f.severity_label, true))
            &&& f.asset matches Some(a) ==> holds(r, "locations"@, sarif::locations(a, true, None))
            &&& f.asset is None ==> holds(
                r,
                "locations"@,
                sarif::locations("unknown"@, true, None),
            )
            &&& r matches JsonView::Obj(e) && e[2].0 == "message"@ && (f.description.len() == 0
                ==> says(e[2].1, "text"@, f.title)) && (f.description.len() > 0 ==> says(
                e[2].1,
                "text"@,
                f.title + "\n\n"@ + f.description,
            )) && e[4].0 == "properties"@ && says(e[4].1, "severity"@, f.severity_label) && says(
                e[4].1,
                "state"@,
                f.state_label,
            )
        }),
{
    let r = sarif::finding_result(f);
    one_says("text"@, f.title);
    one_says("text"@, f.title + "\n\n"@ + f.description);
    match r {
        JsonView::Obj(e) => {
            assert(e[0] == ("ruleId"@, JsonView::Str(sarif::finding_rule_id(f.id))));
            assert(e[1] == ("level"@, JsonView::Str(sarif::sarif_level(f.severity_label, true))));
            assert(e.contains(e[3]));
            match e[4].1 {
                JsonView::Obj(p) => {
                    assert(p[0] == ("severity"@, JsonView::Str(f.severity_label)));
                    assert(p[1] == ("state"@, JsonView::Str(f.state_label)));
                },
                _ => {},
            }
        },
        _ => {},
    }
    match sarif::finding_rule(f) {
        JsonView::Obj(e) => {
            assert(e[0] == ("id"@, JsonView::Str(sarif::finding_rule_id(f.id))));
        },
        _ => {},
    }
}

proof fn one_says(key: Seq<char>, t: Seq<char>)
    ensures
        says(sarif::one_text(key, t), key, t),
{
    let e = seq![(key, JsonView::Str(t))];
    assert(e[0] == (key, JsonView::Str(t)));
}

/// The record of a workspace's finding has its fields under their names.
pub proof fn workspace_records_hold_their_fields(f: FindingView, v: Seq<FindingView>, k: int)
    ensures
        ({
            let r = sarif::finding_record(f);
            &&& holds(r, "id"@, JsonView::Num(digits::dec_int(f.id as int)))
            &&& says(r, "title"@, f.title)
            &&& says(r, "severity"@, f.severity_label)
            &&& says(r, "state"@, f.state_label)
            &&& says(r, "description"@, f.description)
            &&& says(r, "mitigation"@, f.mitigation)
            &&& f.cvss is None ==> holds(r, "cvss"@, JsonView::Null)
            &&& f.cvss matches Some(c) ==> holds(r, "cvss"@, JsonView::Num(c))
            &&& f.asset matches Some(a) ==> says(r, "asset"@, a)
        }),
        sarif::finding_records(v) matches JsonView::Arr(w) && w.len() == v.len() && (0 <= k
            < v.len() ==> w[k] == sarif::finding_record(v[k])),
{
    match sarif::finding_record(f) {
        JsonView::Obj(e) => {
            assert(e[0] == ("id"@, JsonView::Num(digits::dec_int(f.id as int))));
            assert(e[1] == ("title"@, JsonView::Str(f.title)));
            assert(e[2] == ("severity"@, JsonView::Str(f.severity_label)));
            assert(e[3] == ("state"@, JsonView::Str(f.state_label)));
            assert(e[4].0 == "cvss"@ && e.contains(e[4]));
            assert(e[5].0 == "asset"@ && e.contains(e[5]));
            assert(e[6] == ("description"@, JsonView::Str(f.description)));
            assert(e[7] == ("mitigation"@, JsonView::Str(f.mitigation)));
        },
        _ => {},
    }
}

/// The request for a scan of a running application names its address; what signs
/// the agent in and what it may test are told where they are set, a cookie before
/// a token.
pub proof fn application_requests_say_what_is_set(
    u: Seq<char>,
    a: Seq<char>,
    b: Seq<char>,
    c: Seq<char>,
    t: Option<Seq<char>>,
    scope: Seq<Seq<char>>,
    k: int,
)
    ensures
        text::contains(prompts::dast_request(u, a, b), u),
        text::contains(prompts::dast_request(u, a, b), a),
        text::contains(prompts::dast_request(u, a, b), b),
        text::contains(prompts::auth_block(Some(c), t), c),
        text::contains(prompts::auth_block(None, Some(c)), c),
        prompts::auth_block(None, None).len() == 0,
        0 <= k < scope.len() ==> text::contains(prompts::scope_block(scope), scope[k]),
        scope.len() == 0 ==> prompts::scope_block(scope).len() == 0,
{
    dast_asked(u, a, b);
    texts::wholes_hold_their_parts(
        "\n## Authentication\nInclude this cookie on all requests:\n  Cookie: "@,
        c,
        "\n"@,
    );
    texts::wholes_hold_their_parts(
        "\n## Authentication\nInclude this header on all requests:\n  Authorization: Bearer "@,
        c,
        "\n"@,
    );
    if 0 <= k < scope.len() {
        let v = scope.map_values(|p: Seq<char>| "  - "@ + p);
        let head = "\n## Scope restriction\nOnly test paths under these prefixes:\n"@;
        let j = pieces::join(v, "\n"@);
        texts::joined_texts_hold_each(v, "\n"@, k);
        texts::texts_hold_themselves(scope[k]);
        texts::longer_texts_hold_it("  - "@, scope[k], scope[k]);
        texts::parts_hold_for_the_whole(j, v[k], scope[k]);
        texts::longer_texts_hold_it(head, j, scope[k]);
        texts::longer_texts_hold_it(head + j, "\n"@, scope[k]);
    }
}

proof fn dast_asked(u: Seq<char>, a: Seq<char>, b: Seq<char>)
    ensures
        text::contains(prompts::dast_request(u, a, b), u),
        text::contains(prompts::dast_request(u, a, b), a),
        text::contains(prompts::dast_request(u, a, b), b),
{
    let x0 = prompts::DAST_1@;
    let x1 = x0 + u;
    let x2 = x1 + prompts::DAST_2@;
    let x3 = x2 + a;
    let x4 = x3 + b;
    let x5 = x4 + prompts::DAST_3@;
    let x6 = x5 + u;
    let x7 = x6 + prompts::DAST_4@;
    let x8 = x7 + u;
    let x9 = x8 + prompts::DAST_5@;
    let x10 = x9 + u;
    let x11 = x10 + prompts::DAST_6@;
    assert(text::contains(x11, u)) by {
        texts::texts_hold_themselves(u);
        texts::longer_texts_hold_it(x0, u, u);
        texts::longer_texts_hold_it(x1, prompts::DAST_2@, u);
        texts::longer_texts_hold_it(x2, a, u);
        texts::longer_texts_hold_it(x3, b, u);
        texts::longer_texts_hold_it(x4, prompts::DAST_3@, u);
        texts::longer_texts_hold_it(x5, u, u);
        texts::longer_texts_hold_it(x6, prompts::DAST_4@, u);
        texts::longer_texts_hold_it(x7, u, u);
        texts::longer_texts_hold_it(x8, prompts::DAST_5@, u);
        texts::longer_texts_hold_it(x9, u, u);
        texts::longer_texts_hold_it(x10, prompts::DAST_6@, u);
    }
    assert(text::contains(x11, a)) by {
        texts::texts_hold_themselves(a);
        texts::longer_texts_hold_it(x2, a, a);
        texts::longer_texts_hold_it(x3, b, a);
        texts::longer_texts_hold_it(x4, prompts::DAST_3@, a);
        texts::longer_texts_hold_it(x5, u, a);
        texts::longer_texts_hold_it(x6, prompts::DAST_4@, a);
        texts::longer_texts_hold_it(x7, u, a);
        texts::longer_texts_hold_it(x8, prompts::DAST_5@, a);
        texts::longer_texts_hold_it(x9, u, a);
        texts::longer_texts_hold_it(x10, prompts::DAST_6@, a);
    }
    assert(text::contains(x11, b)) by {
        texts::texts_hold_themselves(b);
        texts::longer_texts_hold_it(x3, b, b);
        texts::longer_texts_hold_it(x4, prompts::DAST_3@, b);
        texts::longer_texts_hold_it(x5, u, b);
        texts::longer_texts_hold_it(x6, prompts::DAST_4@, b);
        texts::longer_texts_hold_it(x7, u, b);
        texts::longer_texts_hold_it(x8, prompts::DAST_5@, b);
        texts::longer_texts_hold_it(x9, u, b);
        texts::longer_texts_hold_it(x10, prompts::DAST_6@, b);
    }
}

/// What a scan of code shows at its end names the target and counts what it found.
pub proof fn code_scans_are_summed_up(v: Seq<SastFindingView>, s: Subject, said: Seq<char>, w: Wanted)
    ensures
        text::contains(verdict::sast_end(v, s, said, w).summary, s.target@),
        text::contains(verdict::sast_end(v, s, said, w).summary, digits::dec(v.len())),
{
    let r = severity::ranked::<SastFinding>(v);
    severity::ranking_sorts::<SastFinding>(v);
    assert(r.to_multiset().len() == r.len() && v.to_multiset().len() == v.len());
    code_summaries_show_every_finding(r, s.target@, s.secs as nat);
}

/// So does a scan of a running application.
pub proof fn application_scans_are_summed_up(
    v: Seq<DastFindingView>,
    s: Subject,
    label: Seq<char>,
    said: Seq<char>,
    w: Wanted,
)
    ensures
        text::contains(verdict::dast_end(v, s, label, said, w).summary, s.target@),
        text::contains(verdict::dast_end(v, s, label, said, w).summary, digits::dec(v.len())),
{
    let r = severity::ranked::<DastFinding>(v);
    severity::ranking_sorts::<DastFinding>(v);
    assert(r.to_multiset().len() == r.len() && v.to_multiset().len() == v.len());
    application_summaries_show_every_finding(r, s.target@, s.secs as nat);
}

/// A scan of infrastructure counts the files, and one of packages the
/// vulnerabilities.
pub proof fn other_scans_are_summed_up(
    c: Seq<IacFindingView>,
    d: Seq<ScaFindingView>,
    n: nat,
    s: Subject,
    w: Wanted,
)
    ensures
        text::contains(verdict::iac_end(c, n, s, w).summary, s.target@),
        text::contains(verdict::iac_end(c, n, s, w).summary, digits::dec(n)),
        text::contains(verdict::sca_end(d, n, s, w).summary, s.target@),
        text::contains(verdict::sca_end(d, n, s, w).summary, digits::dec(n)),
{
    let secs = s.secs as nat;
    let rc = severity::ranked::<IacFinding>(c);
    let rd = severity::ranked::<ScaFinding>(d);
    infrastructure_summaries_show_every_finding(rc, s.target@, secs, n);
    package_summaries_show_every_finding(n, rd, rd, s.target@, secs, false);
}

/// Vulnerabilities that the agent does not judge are all reported, and fail the
/// scan where one of them is at the bar.
pub proof fn unjudged_scans_report_everything(v: Seq<OsvVulnView>, s: Subject, w: Wanted)
    ensures
        ({
            let r = verdict::sca_unanalyzed_end(v, s, w);
            &&& text::contains(r.summary, s.target@)
            &&& text::contains(r.summary, digits::dec(v.len()))
            &&& r.error is None <==> (w.fail_on matches Some(t) ==> forall|i: int|
                0 <= i < v.len() ==> severity::level((#[trigger] v[i]).severity) < severity::level(
                    t@,
                ))
        }),
{
    let shown = v.map_values(|x: OsvVulnView| osv::unanalyzed(x, 300));
    package_summaries_show_every_finding(
        v.len(),
        Seq::empty(),
        shown,
        s.target@,
        s.secs as nat,
        true,
    );
    severity::gate_passes_iff_all_below::<ScaFinding>(shown, text::opt_view(w.fail_on), " SCA"@);
    if w.fail_on is Some {
        let t = w.fail_on->0@;
        assert(forall|i: int|
            0 <= i < v.len() ==> (#[trigger] shown[i]).severity == v[i].severity);
        if forall|i: int|
            0 <= i < v.len() ==> severity::level((#[trigger] v[i]).severity) < severity::level(t) {
            assert forall|i: int| 0 <= i < shown.len() implies severity::level(
                ScaFinding::label(#[trigger] shown[i]),
            ) < severity::level(t) by {
                assert(severity::level(v[i].severity) < severity::level(t));
            }
        }
        if forall|i: int|
            0 <= i < shown.len() ==> severity::level(ScaFinding::label(#[trigger] shown[i]))
                < severity::level(t) {
            assert forall|i: int| 0 <= i < v.len() implies severity::level(
                (#[trigger] v[i]).severity,
            ) < severity::level(t) by {
                assert(severity::level(ScaFinding::label(shown[i])) < severity::level(t));
            }
        }
    }
}

} // verus!
