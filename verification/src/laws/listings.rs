//! Listings: what each row of a list says, and what choosing it does.

use vstd::prelude::*;
use crate::api::{Approval, Finding, Thread, WorkflowState, WorkflowStatePhase, WorkflowTemplate, WorkflowTemplatePhase, Workspace};
use crate::choices;
use crate::choices::LocalFile;
use crate::config;
use crate::digits;
use crate::editor;
use crate::ip;
use crate::ip::IpAddr;
use crate::laws::texts;
use crate::listing;
use crate::order;
use crate::panels;
use crate::panels::WorkspaceStats;
use crate::pieces;
use crate::remote;
use crate::text;

verus! {

broadcast use {vstd::seq::group_seq_axioms, vstd::seq_lib::group_to_multiset_ensures};

/// The row of a finding tells its severity, title and state, and gives its number
/// on; its detail tells the rest, line by line.
pub proof fn findings_are_rows(f: Finding, k: int)
    ensures
        ({
            let r = panels::finding_item(f);
            &&& text::contains(r.label, f.severity_label@)
            &&& text::contains(r.label, f.state_label@)
            &&& f.title@.len() <= 80 ==> text::contains(r.label, f.title@)
            &&& r.action == Some(digits::dec_int(f.id as int))
            &&& r.detail.len() > 3 && r.detail[0] == f.title@
            &&& text::contains(r.detail[2], f.severity_label@)
            &&& text::contains(r.detail[2], f.state_label@)
            &&& f.cvss matches Some(c) ==> text::contains(r.detail[2], c@)
            &&& f.asset matches Some(a) ==> r.detail.contains("Asset: "@ + a@)
            &&& r.detail.contains("Finding ID: "@ + digits::dec_int(f.id as int))
            &&& !pieces::is_blank(f.description@) && 0 <= k < pieces::lines(f.description@).len()
                ==> r.detail.contains(pieces::lines(f.description@)[k])
            &&& !pieces::is_blank(f.mitigation@) && 0 <= k < pieces::lines(f.mitigation@).len()
                ==> r.detail.contains(pieces::lines(f.mitigation@)[k])
        }),
{
    let r = panels::finding_item(f);
    finding_told(f);
    let top = Seq::<Seq<char>>::empty().push(f.title@).push(Seq::empty()).push(
        "Severity: "@ + f.severity_label@ + "    State: "@ + f.state_label@ + "    CVSS: "@
            + text::text_or(text::opt_view(f.cvss), "-"@),
    );
    let asset = match f.asset {
        Some(a) => top.push("Asset: "@ + a@),
        None => top,
    };
    let id = asset.push("Finding ID: "@ + digits::dec_int(f.id as int));
    let d = panels::passage("── Description ──"@, f.description@);
    let m = panels::passage("── Mitigation ──"@, f.mitigation@);
    assert(r.detail == id + d + m);
    assert(r.detail[0] == top[0] && r.detail[2] == top[2]);
    if f.asset is Some {
        assert(r.detail[3] == "Asset: "@ + f.asset->0@);
    }
    assert(r.detail[asset.len() as int] == "Finding ID: "@ + digits::dec_int(f.id as int));
    if !pieces::is_blank(f.description@) && 0 <= k < pieces::lines(f.description@).len() {
        assert(r.detail[id.len() + 2 + k] == pieces::lines(f.description@)[k]);
    }
    if !pieces::is_blank(f.mitigation@) && 0 <= k < pieces::lines(f.mitigation@).len() {
        assert(r.detail[id.len() + d.len() + 2 + k] == pieces::lines(f.mitigation@)[k]);
    }
}

proof fn finding_told(f: Finding)
    ensures
        ({
            let r = panels::finding_item(f);
            let score = text::text_or(text::opt_view(f.cvss), "-"@);
            let line = "Severity: "@ + f.severity_label@ + "    State: "@ + f.state_label@
                + "    CVSS: "@ + score;
            &&& text::contains(r.label, f.severity_label@)
            &&& text::contains(r.label, f.state_label@)
            &&& text::contains(r.label, text::truncated(f.title@, 80))
            &&& text::contains(line, f.severity_label@)
            &&& text::contains(line, f.state_label@)
            &&& text::contains(line, score)
        }),
{
    let score = text::text_or(text::opt_view(f.cvss), "-"@);
    let t0 = "["@;
    let t1 = t0 + f.severity_label@;
    let t2 = t1 + "] "@;
    let t3 = t2 + text::truncated(f.title@, 80);
    let t4 = t3 + "  · "@;
    let t5 = t4 + f.state_label@;
    assert(text::contains(t5, f.severity_label@)) by {
        texts::texts_hold_themselves(f.severity_label@);
        texts::longer_texts_hold_it(t0, f.severity_label@, f.severity_label@);
        texts::longer_texts_hold_it(t1, "] "@, f.severity_label@);
        texts::longer_texts_hold_it(t2, text::truncated(f.title@, 80), f.severity_label@);
        texts::longer_texts_hold_it(t3, "  · "@, f.severity_label@);
        texts::longer_texts_hold_it(t4, f.state_label@, f.severity_label@);
    }
    assert(text::contains(t5, text::truncated(f.title@, 80))) by {
        texts::texts_hold_themselves(text::truncated(f.title@, 80));
        texts::longer_texts_hold_it(t2, text::truncated(f.title@, 80), text::truncated(f.title@, 80));
        texts::longer_texts_hold_it(t3, "  · "@, text::truncated(f.title@, 80));
        texts::longer_texts_hold_it(t4, f.state_label@, text::truncated(f.title@, 80));
    }
    assert(text::contains(t5, f.state_label@)) by {
        texts::texts_hold_themselves(f.state_label@);
        texts::longer_texts_hold_it(t4, f.state_label@, f.state_label@);
    }
    let u0 = "Severity: "@;
    let u1 = u0 + f.severity_label@;
    let u2 = u1 + "    State: "@;
    let u3 = u2 + f.state_label@;
    let u4 = u3 + "    CVSS: "@;
    let u5 = u4 + score;
    assert(text::contains(u5, f.severity_label@)) by {
        texts::texts_hold_themselves(f.severity_label@);
        texts::longer_texts_hold_it(u0, f.severity_label@, f.severity_label@);
        texts::longer_texts_hold_it(u1, "    State: "@, f.severity_label@);
        texts::longer_texts_hold_it(u2, f.state_label@, f.severity_label@);
        texts::longer_texts_hold_it(u3, "    CVSS: "@, f.severity_label@);
        texts::longer_texts_hold_it(u4, score, f.severity_label@);
    }
    assert(text::contains(u5, f.state_label@)) by {
        texts::texts_hold_themselves(f.state_label@);
        texts::longer_texts_hold_it(u2, f.state_label@, f.state_label@);
        texts::longer_texts_hold_it(u3, "    CVSS: "@, f.state_label@);
        texts::longer_texts_hold_it(u4, score, f.state_label@);
    }
    assert(text::contains(u5, score)) by {
        texts::texts_hold_themselves(score);
        texts::longer_texts_hold_it(u4, score, score);
    }
}

/// The row of a request for approval tells its state, kind and summary, and gives
/// its id on.
pub proof fn approvals_are_rows(a: Approval, k: int)
    ensures
        ({
            let r = panels::approval_item(a);
            &&& text::contains(r.label, a.state@)
            &&& text::contains(r.label, a.action_type@)
            &&& a.summary@.len() <= 70 ==> text::contains(r.label, a.summary@)
            &&& r.action == Some(a.id@)
            &&& r.detail[0] == "Action: "@ + a.action_type@
            &&& text::contains(r.detail[1], a.module@)
            &&& text::contains(r.detail[1], a.state@)
            &&& 0 <= k < pieces::lines(a.summary@).len() ==> r.detail.contains(
                pieces::lines(a.summary@)[k],
            )
        }),
{
    let r = panels::approval_item(a);
    approval_told(a);
    let top = Seq::<Seq<char>>::empty().push("Action: "@ + a.action_type@).push(
        "Module: "@ + a.module@ + "    State: "@ + a.state@,
    ).push(Seq::empty()).push("── Summary ──"@);
    let all = top + pieces::lines(a.summary@);
    assert(all[0] == top[0] && all[1] == top[1]);
    assert(r.detail[0] == all[0] && r.detail[1] == all[1]);
    if 0 <= k < pieces::lines(a.summary@).len() {
        assert(all[4 + k] == pieces::lines(a.summary@)[k]);
        assert(r.detail[4 + k] == all[4 + k]);
    }
}

proof fn approval_told(a: Approval)
    ensures
        ({
            let r = panels::approval_item(a);
            let line = "Module: "@ + a.module@ + "    State: "@ + a.state@;
            &&& text::contains(r.label, a.state@)
            &&& text::contains(r.label, a.action_type@)
            &&& text::contains(r.label, text::truncated(a.summary@, 70))
            &&& text::contains(line, a.module@)
            &&& text::contains(line, a.state@)
        }),
{
    let t0 = "["@;
    let t1 = t0 + a.state@;
    let t2 = t1 + "] "@;
    let t3 = t2 + a.action_type@;
    let t4 = t3 + "  · "@;
    let t5 = t4 + text::truncated(a.summary@, 70);
    assert(text::contains(t5, a.state@)) by {
        texts::texts_hold_themselves(a.state@);
        texts::longer_texts_hold_it(t0, a.state@, a.state@);
        texts::longer_texts_hold_it(t1, "] "@, a.state@);
        texts::longer_texts_hold_it(t2, a.action_type@, a.state@);
        texts::longer_texts_hold_it(t3, "  · "@, a.state@);
        texts::longer_texts_hold_it(t4, text::truncated(a.summary@, 70), a.state@);
    }
    assert(text::contains(t5, a.action_type@)) by {
        texts::texts_hold_themselves(a.action_type@);
        texts::longer_texts_hold_it(t2, a.action_type@, a.action_type@);
        texts::longer_texts_hold_it(t3, "  · "@, a.action_type@);
        texts::longer_texts_hold_it(t4, text::truncated(a.summary@, 70), a.action_type@);
    }
    assert(text::contains(t5, text::truncated(a.summary@, 70))) by {
        texts::texts_hold_themselves(text::truncated(a.summary@, 70));
        texts::longer_texts_hold_it(t4, text::truncated(a.summary@, 70), text::truncated(a.summary@, 70));
    }
    let u0 = "Module: "@;
    let u1 = u0 + a.module@;
    let u2 = u1 + "    State: "@;
    let u3 = u2 + a.state@;
    assert(text::contains(u3, a.module@)) by {
        texts::texts_hold_themselves(a.module@);
        texts::longer_texts_hold_it(u0, a.module@, a.module@);
        texts::longer_texts_hold_it(u1, "    State: "@, a.module@);
        texts::longer_texts_hold_it(u2, a.state@, a.module@);
    }
    assert(text::contains(u3, a.state@)) by {
        texts::texts_hold_themselves(a.state@);
        texts::longer_texts_hold_it(u2, a.state@, a.state@);
    }
}

/// The row of a workspace tells its name, status, threads, credits and how often
/// it was opened; it is marked where it is bound, and choosing it gives its id.
pub proof fn workspaces_are_rows(w: Workspace, s: WorkspaceStats, bound: Option<Seq<char>>)
    ensures
        ({
            let r = panels::workspace_item(w, s, bound);
            &&& w.name@.len() > 0 ==> text::contains(r.label, w.name@) && r.detail[0] == w.name@
            &&& w.name@.len() == 0 ==> r.detail[0] == "(unnamed)"@
            &&& text::contains(r.label, w.status@)
            &&& text::contains(r.label, s.credits@)
            &&& s.threads matches Some(n) ==> text::contains(r.label, digits::dec(n as nat))
            &&& s.opens > 0 ==> text::contains(r.label, digits::dec(s.opens as nat))
            &&& bound == Some(w.id@) ==> text::contains(r.label, " ●"@)
            &&& r.action == Some(w.id@)
            &&& r.detail.contains("credits: "@ + s.credits_exact@)
            &&& r.detail.contains("id: "@ + w.id@)
        }),
{
    let name = panels::named(w.name@, "(unnamed)"@);
    let r = panels::workspace_item(w, s, bound);
    let mark = if bound == Some(w.id@) {
        " ●"@
    } else {
        Seq::empty()
    };
    let threads = panels::threads_text(s.threads);
    let again = if s.opens > 0 {
        " · ↻ recent ×"@ + digits::dec(s.opens as nat)
    } else {
        Seq::empty()
    };
    if s.opens > 0 {
        texts::texts_hold_themselves(digits::dec(s.opens as nat));
        texts::longer_texts_hold_it(
            " · ↻ recent ×"@,
            digits::dec(s.opens as nat),
            digits::dec(s.opens as nat),
        );
    }
    if s.threads is Some {
        let n = digits::dec(s.threads->0 as nat);
        texts::texts_hold_themselves(n);
        texts::longer_texts_hold_it(n, " threads"@, n);
    }
    let t0 = name;
    let t1 = t0 + mark;
    let t2 = t1 + "  · "@;
    let t3 = t2 + w.status@;
    let t4 = t3 + " · "@;
    let t5 = t4 + threads;
    let t6 = t5 + " · ◈ "@;
    let t7 = t6 + s.credits@;
    let t8 = t7 + " cr"@;
    let t9 = t8 + again;
    assert(text::contains(t9, name)) by {
        texts::texts_hold_themselves(name);
        texts::longer_texts_hold_it(t0, mark, name);
        texts::longer_texts_hold_it(t1, "  · "@, name);
        texts::longer_texts_hold_it(t2, w.status@, name);
        texts::longer_texts_hold_it(t3, " · "@, name);
        texts::longer_texts_hold_it(t4, threads, name);
        texts::longer_texts_hold_it(t5, " · ◈ "@, name);
        texts::longer_texts_hold_it(t6, s.credits@, name);
        texts::longer_texts_hold_it(t7, " cr"@, name);
        texts::longer_texts_hold_it(t8, again, name);
    }
    assert(text::contains(t9, mark)) by {
        texts::texts_hold_themselves(mark);
        texts::longer_texts_hold_it(t0, mark, mark);
        texts::longer_texts_hold_it(t1, "  · "@, mark);
        texts::longer_texts_hold_it(t2, w.status@, mark);
        texts::longer_texts_hold_it(t3, " · "@, mark);
        texts::longer_texts_hold_it(t4, threads, mark);
        texts::longer_texts_hold_it(t5, " · ◈ "@, mark);
        texts::longer_texts_hold_it(t6, s.credits@, mark);
        texts::longer_texts_hold_it(t7, " cr"@, mark);
        texts::longer_texts_hold_it(t8, again, mark);
    }
    assert(text::contains(t9, w.status@)) by {
        texts::texts_hold_themselves(w.status@);
        texts::longer_texts_hold_it(t2, w.status@, w.status@);
        texts::longer_texts_hold_it(t3, " · "@, w.status@);
        texts::longer_texts_hold_it(t4, threads, w.status@);
        texts::longer_texts_hold_it(t5, " · ◈ "@, w.status@);
        texts::longer_texts_hold_it(t6, s.credits@, w.status@);
        texts::longer_texts_hold_it(t7, " cr"@, w.status@);
        texts::longer_texts_hold_it(t8, again, w.status@);
    }
    assert(text::contains(t9, s.credits@)) by {
        texts::texts_hold_themselves(s.credits@);
        texts::longer_texts_hold_it(t6, s.credits@, s.credits@);
        texts::longer_texts_hold_it(t7, " cr"@, s.credits@);
        texts::longer_texts_hold_it(t8, again, s.credits@);
    }
    assert(r.label == t9);
    if s.threads is Some {
        let n = digits::dec(s.threads->0 as nat);
        texts::longer_texts_hold_it(t4, threads, n);
        texts::longer_texts_hold_it(t5, " · ◈ "@, n);
        texts::longer_texts_hold_it(t6, s.credits@, n);
        texts::longer_texts_hold_it(t7, " cr"@, n);
        texts::longer_texts_hold_it(t8, again, n);
    }
    if s.opens > 0 {
        texts::longer_texts_hold_it(t8, again, digits::dec(s.opens as nat));
    }
    assert(r.detail[3] == "credits: "@ + s.credits_exact@);
    if s.opens > 0 {
        assert(r.detail[5] == "id: "@ + w.id@);
    } else {
        assert(r.detail[4] == "id: "@ + w.id@);
    }
}

/// The row of a thread tells its title, status and what was said last; it is
/// marked where it is the current one, and choosing it gives its id.
pub proof fn threads_are_rows(t: Thread, current: Seq<char>)
    ensures
        ({
            let r = panels::thread_item(t, current);
            &&& t.title@.len() > 0 ==> text::contains(r.label, t.title@) && r.detail[0] == t.title@
            &&& text::contains(r.label, t.status@)
            &&& t.last_message@.len() <= 50 ==> text::contains(r.label, t.last_message@)
            &&& t.id@ == current ==> text::contains(r.label, " ●"@)
            &&& r.action == Some(t.id@)
            &&& r.detail.contains("status: "@ + t.status@)
            &&& r.detail.contains("id: "@ + t.id@)
        }),
{
    let r = panels::thread_item(t, current);
    let title = panels::named(t.title@, "(untitled)"@);
    let mark = if t.id@ == current {
        " ●"@
    } else {
        Seq::empty()
    };
    let t0 = title;
    let t1 = t0 + mark;
    let t2 = t1 + "  · "@;
    let t3 = t2 + t.status@;
    let t4 = t3 + "  "@;
    let t5 = t4 + text::truncated(t.last_message@, 50);
    assert(text::contains(t5, title)) by {
        texts::texts_hold_themselves(title);
        texts::longer_texts_hold_it(t0, mark, title);
        texts::longer_texts_hold_it(t1, "  · "@, title);
        texts::longer_texts_hold_it(t2, t.status@, title);
        texts::longer_texts_hold_it(t3, "  "@, title);
        texts::longer_texts_hold_it(t4, text::truncated(t.last_message@, 50), title);
    }
    assert(text::contains(t5, mark)) by {
        texts::texts_hold_themselves(mark);
        texts::longer_texts_hold_it(t0, mark, mark);
        texts::longer_texts_hold_it(t1, "  · "@, mark);
        texts::longer_texts_hold_it(t2, t.status@, mark);
        texts::longer_texts_hold_it(t3, "  "@, mark);
        texts::longer_texts_hold_it(t4, text::truncated(t.last_message@, 50), mark);
    }
    assert(text::contains(t5, t.status@)) by {
        texts::texts_hold_themselves(t.status@);
        texts::longer_texts_hold_it(t2, t.status@, t.status@);
        texts::longer_texts_hold_it(t3, "  "@, t.status@);
        texts::longer_texts_hold_it(t4, text::truncated(t.last_message@, 50), t.status@);
    }
    assert(text::contains(t5, text::truncated(t.last_message@, 50))) by {
        texts::texts_hold_themselves(text::truncated(t.last_message@, 50));
        texts::longer_texts_hold_it(t4, text::truncated(t.last_message@, 50), text::truncated(t.last_message@, 50));
    }
    assert(r.label == t5);
    assert(r.detail[1] == "status: "@ + t.status@);
    assert(r.detail[2] == "id: "@ + t.id@);
}

/// The row of a model is its name, marked where it is the current one (the model
/// without a number where none was chosen), and choosing it gives its number.
pub proof fn models_are_rows(id: i64, name: Seq<char>, current: Option<i64>)
    ensures
        ({
            let r = choices::model_item(id, name, current);
            &&& current == Some(id) ==> r.label == name + " ●"@
            &&& current is None && id == 0 ==> r.label == name + " ●"@
            &&& current is None && id != 0 ==> r.label == name
            &&& current is Some && current != Some(id) ==> r.label == name
            &&& r.action == Some(digits::dec_int(id as int))
            &&& r.detail[0] == name
        }),
{
    assert(name + Seq::<char>::empty() =~= name);
}

/// The first screens list workspaces and threads by name and status.
pub proof fn first_screens_name_their_rows(
    w: Workspace,
    opens: u64,
    flow: Option<Seq<char>>,
    bound: Option<Seq<char>>,
    t: Thread,
)
    ensures
        w.name@.len() > 0 ==> text::contains(
            choices::workspace_row(w, opens, flow, bound),
            w.name@,
        ),
        text::contains(choices::workspace_row(w, opens, flow, bound), w.status@),
        text::contains(
            choices::workspace_row(w, opens, flow, bound),
            choices::workflow_badge(flow),
        ),
        bound == Some(w.id@) ==> text::contains(
            choices::workspace_row(w, opens, flow, bound),
            "  ✓"@,
        ),
        t.title@.len() > 0 ==> text::contains(choices::thread_row(t), t.title@),
        text::contains(choices::thread_row(t), t.status@),
        0 < t.last_message@.len() <= 50 ==> text::contains(
            choices::thread_row(t),
            t.last_message@,
        ),
{
    let name = panels::named(w.name@, "(unnamed)"@);
    let mark = if bound == Some(w.id@) {
        "  ✓"@
    } else {
        Seq::empty()
    };
    let again = if opens > 0 {
        "  · ↻ ×"@ + digits::dec(opens as nat)
    } else {
        Seq::empty()
    };
    let badge = choices::workflow_badge(flow);
    let t0 = name;
    let t1 = t0 + "   ["@;
    let t2 = t1 + w.status@;
    let t3 = t2 + "]"@;
    let t4 = t3 + mark;
    let t5 = t4 + again;
    let t6 = t5 + badge;
    assert(text::contains(t6, name)) by {
        texts::texts_hold_themselves(name);
        texts::longer_texts_hold_it(t0, "   ["@, name);
        texts::longer_texts_hold_it(t1, w.status@, name);
        texts::longer_texts_hold_it(t2, "]"@, name);
        texts::longer_texts_hold_it(t3, mark, name);
        texts::longer_texts_hold_it(t4, again, name);
        texts::longer_texts_hold_it(t5, badge, name);
    }
    assert(text::contains(t6, w.status@)) by {
        texts::texts_hold_themselves(w.status@);
        texts::longer_texts_hold_it(t1, w.status@, w.status@);
        texts::longer_texts_hold_it(t2, "]"@, w.status@);
        texts::longer_texts_hold_it(t3, mark, w.status@);
        texts::longer_texts_hold_it(t4, again, w.status@);
        texts::longer_texts_hold_it(t5, badge, w.status@);
    }
    assert(text::contains(t6, mark)) by {
        texts::texts_hold_themselves(mark);
        texts::longer_texts_hold_it(t3, mark, mark);
        texts::longer_texts_hold_it(t4, again, mark);
        texts::longer_texts_hold_it(t5, badge, mark);
    }
    assert(text::contains(t6, badge)) by {
        texts::texts_hold_themselves(badge);
        texts::longer_texts_hold_it(t5, badge, badge);
    }
    assert(choices::workspace_row(w, opens, flow, bound) == t6);
    thread_told(t);
}

proof fn thread_told(t: Thread)
    ensures
        t.title@.len() > 0 ==> text::contains(choices::thread_row(t), t.title@),
        text::contains(choices::thread_row(t), t.status@),
        0 < t.last_message@.len() <= 50 ==> text::contains(
            choices::thread_row(t),
            t.last_message@,
        ),
{
    let title = panels::named(t.title@, "(untitled)"@);
    let said = if t.last_message@.len() == 0 {
        Seq::empty()
    } else {
        "  — "@ + text::truncated(t.last_message@, 50)
    };
    let u0 = title;
    let u1 = u0 + "   ["@;
    let u2 = u1 + t.status@;
    let u3 = u2 + "]"@;
    let u4 = u3 + said;
    assert(text::contains(u4, title)) by {
        texts::texts_hold_themselves(title);
        texts::longer_texts_hold_it(u0, "   ["@, title);
        texts::longer_texts_hold_it(u1, t.status@, title);
        texts::longer_texts_hold_it(u2, "]"@, title);
        texts::longer_texts_hold_it(u3, said, title);
    }
    assert(text::contains(u4, t.status@)) by {
        texts::texts_hold_themselves(t.status@);
        texts::longer_texts_hold_it(u1, t.status@, t.status@);
        texts::longer_texts_hold_it(u2, "]"@, t.status@);
        texts::longer_texts_hold_it(u3, said, t.status@);
    }
    assert(choices::thread_row(t) == u4);
    if 0 < t.last_message@.len() <= 50 {
        texts::texts_hold_themselves(t.last_message@);
        texts::longer_texts_hold_it("  — "@, t.last_message@, t.last_message@);
        texts::longer_texts_hold_it(u3, said, t.last_message@);
    }
}

/// A running, paused, pending or failed workflow is called so, and a completed one
/// is done; others are not marked.
pub proof fn workflows_are_marked(s: Seq<char>)
    ensures
        s == "running"@ || s == "paused"@ || s == "pending"@ || s == "failed"@
            ==> choices::workflow_badge(Some(s)) == "  ⚙ "@ + s,
        s == "completed"@ ==> choices::workflow_badge(Some(s)) == "  ⚙ "@ + "done"@,
        s != "running"@ && s != "paused"@ && s != "pending"@ && s != "failed"@ && s
            != "completed"@ ==> choices::workflow_badge(Some(s)).len() == 0,
        choices::workflow_badge(None).len() == 0,
{
    reveal_strlit("  ⚙ ");
    reveal_strlit("running");
    reveal_strlit("paused");
    reveal_strlit("pending");
    reveal_strlit("failed");
    reveal_strlit("completed");
    reveal_strlit("done");
    reveal_strlit("  ⚙ running");
    reveal_strlit("  ⚙ paused");
    reveal_strlit("  ⚙ pending");
    reveal_strlit("  ⚙ failed");
    reveal_strlit("  ⚙ done");
    assert("  ⚙ "@ + "running"@ =~= "  ⚙ running"@);
    assert("  ⚙ "@ + "paused"@ =~= "  ⚙ paused"@);
    assert("  ⚙ "@ + "pending"@ =~= "  ⚙ pending"@);
    assert("  ⚙ "@ + "failed"@ =~= "  ⚙ failed"@);
    assert("  ⚙ "@ + "done"@ =~= "  ⚙ done"@);
    assert("running"@[0] == 'r' && "paused"@[1] == 'a' && "pending"@[1] == 'e' && "failed"@[0]
        == 'f' && "completed"@[0] == 'c' && "paused"@[0] == 'p' && "pending"@[0] == 'p');
}

/// A thread is found by its id: the first that has it.
pub proof fn threads_are_found_by_id(v: Seq<Thread>, id: Seq<char>, from: int)
    requires
        0 <= from <= v.len(),
    ensures
        choices::thread_at(v, id, from) matches Some(t) ==> t.id@ == id && v.contains(t),
        choices::thread_at(v, id, from) is None <==> forall|i: int|
            from <= i < v.len() ==> (#[trigger] v[i]).id@ != id,
    decreases v.len() - from,
{
    if from < v.len() && v[from].id@ != id {
        threads_are_found_by_id(v, id, from + 1);
        if choices::thread_at(v, id, from) is None {
            assert forall|i: int| from <= i < v.len() implies (#[trigger] v[i]).id@ != id by {
                assert(i == from || from + 1 <= i);
            }
        }
    }
}

/// Files are listed in the order of their names; none is lost and none added.
pub proof fn files_are_listed_in_order(v: Seq<LocalFile>)
    ensures
        choices::files_sorted(v).to_multiset() == v.to_multiset(),
        forall|i: int, j: int|
            0 <= i < j < v.len() ==> !order::precedes(
                (#[trigger] choices::files_sorted(v)[j]).rel@,
                (#[trigger] choices::files_sorted(v)[i]).rel@,
            ),
    decreases v.len(),
{
    let s = choices::files_sorted(v);
    if v.len() == 0 {
        assert(s =~= v);
    } else {
        files_are_listed_in_order(v.drop_last());
        let p = choices::files_sorted(v.drop_last());
        assert(p.to_multiset().len() == p.len());
        assert(v.drop_last().to_multiset().len() == v.drop_last().len());
        placing_keeps_order(p, v.last());
        assert(v =~= v.drop_last().push(v.last()));
    }
}

spec fn by_name(s: Seq<LocalFile>) -> bool {
    forall|i: int, j: int|
        0 <= i < j < s.len() ==> !order::precedes((#[trigger] s[j]).rel@, (#[trigger] s[i]).rel@)
}

proof fn placing_keeps_order(s: Seq<LocalFile>, f: LocalFile)
    requires
        by_name(s),
    ensures
        by_name(choices::file_placed(s, f)),
        choices::file_placed(s, f).len() == s.len() + 1,
        choices::file_placed(s, f).to_multiset() == s.to_multiset().insert(f),
        forall|x: LocalFile| #[trigger]
            choices::file_placed(s, f).contains(x) ==> x == f || s.contains(x),
    decreases s.len(),
{
    let r = choices::file_placed(s, f);
    if s.len() == 0 || !order::precedes(f.rel@, s.last().rel@) {
        assert(r == s.push(f));
        assert forall|i: int, j: int| 0 <= i < j < r.len() implies !order::precedes(
            (#[trigger] r[j]).rel@,
            (#[trigger] r[i]).rel@,
        ) by {
            if j == s.len() {
                let last = s.last().rel@;
                let x = s[i].rel@;
                if order::precedes(f.rel@, x) {
                    order::order_is_total(x, last);
                    if i < s.len() - 1 {
                        assert(!order::precedes(s[s.len() - 1].rel@, s[i].rel@));
                    }
                    if x != last {
                        order::order_is_transitive(f.rel@, x, last);
                    }
                }
            }
        }
        assert forall|x: LocalFile| #[trigger] r.contains(x) implies x == f || s.contains(x) by {
            let k = choose|k: int| 0 <= k < r.len() && r[k] == x;
            if k < s.len() {
                assert(s[k] == x);
            }
        }
    } else {
        let d = s.drop_last();
        placing_keeps_order(d, f);
        let p = choices::file_placed(d, f);
        assert(r == p.push(s.last()));
        assert(s =~= d.push(s.last()));
        assert(r.to_multiset() =~= s.to_multiset().insert(f));
        assert forall|i: int, j: int| 0 <= i < j < r.len() implies !order::precedes(
            (#[trigger] r[j]).rel@,
            (#[trigger] r[i]).rel@,
        ) by {
            if j == p.len() {
                assert(p.contains(p[i]));
                if p[i] == f {
                    order::order_is_total(f.rel@, s.last().rel@);
                } else {
                    let k = choose|k: int| 0 <= k < d.len() && d[k] == p[i];
                    assert(s[k] == p[i]);
                    assert(!order::precedes(s[s.len() - 1].rel@, s[k].rel@));
                }
            }
        }
        assert forall|x: LocalFile| #[trigger] r.contains(x) implies x == f || s.contains(x) by {
            let k = choose|k: int| 0 <= k < r.len() && r[k] == x;
            if k < p.len() {
                assert(p.contains(x));
                if x != f {
                    let m = choose|m: int| 0 <= m < d.len() && d[m] == x;
                    assert(s[m] == x);
                }
            } else {
                assert(s[s.len() - 1] == x);
            }
        }
    }
}

/// What a workspace holds is told in numbers.
pub proof fn workspaces_are_told_in_numbers(
    auth: Seq<char>,
    id: Seq<char>,
    name: Option<Seq<char>>,
    threads: nat,
    credits: Seq<char>,
    findings: nat,
    files: nat,
)
    ensures
        ({
            let x = choices::context_text(auth, id, name, threads, credits, findings, files);
            &&& text::contains(x, auth)
            &&& name matches Some(n) ==> n.len() > 0 ==> text::contains(x, n)
            &&& text::contains(x, digits::dec(threads) + " threads"@)
            &&& text::contains(x, credits)
            &&& text::contains(x, digits::dec(findings) + " findings"@)
            &&& text::contains(x, digits::dec(files) + " files"@)
        }),
{
    let called = if name is Some && name->0.len() > 0 {
        name->0
    } else {
        editor::cut(id, 8) + "…"@
    };
    let x = choices::context_text(auth, id, name, threads, credits, findings, files);
    let t0 = auth;
    let t1 = t0 + "\n⊞ workspace: "@;
    let t2 = t1 + called;
    let t3 = t2 + "\n"@;
    let t4 = t3 + digits::dec(threads);
    let t5 = t4 + " threads  ·  ◈ "@;
    let t6 = t5 + credits;
    let t7 = t6 + " credits  ·  ⚠ "@;
    let t8 = t7 + digits::dec(findings);
    let t9 = t8 + " findings  ·  "@;
    let t10 = t9 + digits::dec(files);
    let t11 = t10 + " files"@;
    assert(text::contains(t11, auth)) by {
        texts::texts_hold_themselves(auth);
        texts::longer_texts_hold_it(t0, "\n⊞ workspace: "@, auth);
        texts::longer_texts_hold_it(t1, called, auth);
        texts::longer_texts_hold_it(t2, "\n"@, auth);
        texts::longer_texts_hold_it(t3, digits::dec(threads), auth);
        texts::longer_texts_hold_it(t4, " threads  ·  ◈ "@, auth);
        texts::longer_texts_hold_it(t5, credits, auth);
        texts::longer_texts_hold_it(t6, " credits  ·  ⚠ "@, auth);
        texts::longer_texts_hold_it(t7, digits::dec(findings), auth);
        texts::longer_texts_hold_it(t8, " findings  ·  "@, auth);
        texts::longer_texts_hold_it(t9, digits::dec(files), auth);
        texts::longer_texts_hold_it(t10, " files"@, auth);
    }
    assert(text::contains(t11, called)) by {
        texts::texts_hold_themselves(called);
        texts::longer_texts_hold_it(t1, called, called);
        texts::longer_texts_hold_it(t2, "\n"@, called);
        texts::longer_texts_hold_it(t3, digits::dec(threads), called);
        texts::longer_texts_hold_it(t4, " threads  ·  ◈ "@, called);
        texts::longer_texts_hold_it(t5, credits, called);
        texts::longer_texts_hold_it(t6, " credits  ·  ⚠ "@, called);
        texts::longer_texts_hold_it(t7, digits::dec(findings), called);
        texts::longer_texts_hold_it(t8, " findings  ·  "@, called);
        texts::longer_texts_hold_it(t9, digits::dec(files), called);
        texts::longer_texts_hold_it(t10, " files"@, called);
    }
    assert(text::contains(t11, credits)) by {
        texts::texts_hold_themselves(credits);
        texts::longer_texts_hold_it(t5, credits, credits);
        texts::longer_texts_hold_it(t6, " credits  ·  ⚠ "@, credits);
        texts::longer_texts_hold_it(t7, digits::dec(findings), credits);
        texts::longer_texts_hold_it(t8, " findings  ·  "@, credits);
        texts::longer_texts_hold_it(t9, digits::dec(files), credits);
        texts::longer_texts_hold_it(t10, " files"@, credits);
    }
    assert(x == t11);
    assert(x =~= t3 + (digits::dec(threads) + " threads"@) + ("  ·  ◈ "@ + credits
        + " credits  ·  ⚠ "@ + digits::dec(findings) + " findings  ·  "@ + digits::dec(files)
        + " files"@)) by {
        reveal_strlit(" threads  ·  ◈ ");
        reveal_strlit(" threads");
        reveal_strlit("  ·  ◈ ");
        assert(" threads  ·  ◈ "@ =~= " threads"@ + "  ·  ◈ "@);
    }
    texts::wholes_hold_their_parts(
        t3,
        digits::dec(threads) + " threads"@,
        "  ·  ◈ "@ + credits + " credits  ·  ⚠ "@ + digits::dec(findings) + " findings  ·  "@
            + digits::dec(files) + " files"@,
    );
    assert(x =~= t7 + (digits::dec(findings) + " findings"@) + ("  ·  "@ + digits::dec(files)
        + " files"@)) by {
        reveal_strlit(" findings  ·  ");
        reveal_strlit(" findings");
        reveal_strlit("  ·  ");
        assert(" findings  ·  "@ =~= " findings"@ + "  ·  "@);
    }
    texts::wholes_hold_their_parts(
        t7,
        digits::dec(findings) + " findings"@,
        "  ·  "@ + digits::dec(files) + " files"@,
    );
    assert(x =~= t9 + (digits::dec(files) + " files"@) + Seq::<char>::empty());
    texts::wholes_hold_their_parts(t9, digits::dec(files) + " files"@, Seq::empty());
}

/// The status of a profile tells where the service is, for whom, and with which
/// workspace and thread; the key is not shown.
pub proof fn profiles_are_told(
    p: config::ProfileView,
    host: Seq<char>,
    a: IpAddr,
    direct: Option<(Seq<char>, IpAddr)>,
)
    ensures
        ({
            let v = listing::status_text(p, direct);
            &&& p.base_url.len() > 0 ==> v.contains("base_url    "@ + p.base_url)
            &&& p.base_url.len() == 0 ==> v.contains("base_url    "@ + "(unset)"@)
            &&& p.org_id.len() > 0 ==> v.contains("org_id      "@ + p.org_id)
            &&& v.contains("master_key  "@ + config::redacted(p.master_key))
            &&& v.contains("deployment  "@ + p.deployment)
            &&& direct == Some((host, a)) ==> v.contains(
                "resolve     "@ + host + " → "@ + ip::ip_text(a) + " (DNS bypass)"@,
            )
            &&& p.workspace_id matches Some(w) ==> v.contains("workspace   "@ + w)
            &&& p.thread_id matches Some(t) ==> v.contains("thread      "@ + t)
            &&& p.workspace_id is None ==> v.contains("workspace   "@ + "(none)"@)
            &&& p.thread_id is None ==> v.contains("thread      "@ + "(none)"@)
        }),
{
    let v = listing::status_text(p, direct);
    assert(v[0] == "base_url    "@ + panels::named(p.base_url, "(unset)"@));
    assert(v[1] == "org_id      "@ + panels::named(p.org_id, "(unset)"@));
    assert(v[2] == "master_key  "@ + config::redacted(p.master_key));
    assert(v[3] == "deployment  "@ + p.deployment);
    let n: int = if direct is Some {
        5
    } else {
        4
    };
    if direct is Some {
        assert(v.contains(v[4]));
    }
    assert(v[n] == "workspace   "@ + text::text_or(p.workspace_id, "(none)"@));
    assert(v[n + 1] == "thread      "@ + text::text_or(p.thread_id, "(none)"@));
}

/// Spending is told of the thread where one is named, else of the workspace, else
/// of the organisation.
pub proof fn scopes_are_the_narrowest(w: Seq<char>, t: Seq<char>, o: Option<Seq<char>>)
    ensures
        text::contains(listing::scope_text(o, Some(t)), editor::cut(t, 8)),
        text::starts_with(listing::scope_text(o, Some(t)), "thread "@),
        text::contains(listing::scope_text(Some(w), None), editor::cut(w, 8)),
        text::starts_with(listing::scope_text(Some(w), None), "workspace "@),
        listing::scope_text(None, None) == "organization"@,
{
    texts::texts_hold_themselves(editor::cut(t, 8));
    texts::texts_hold_themselves(editor::cut(w, 8));
    texts::longer_texts_hold_it("thread "@, editor::cut(t, 8), editor::cut(t, 8));
    texts::longer_texts_hold_it("workspace "@, editor::cut(w, 8), editor::cut(w, 8));
    assert(("thread "@ + editor::cut(t, 8)).subrange(0, "thread "@.len() as int) =~= "thread "@);
    assert(("workspace "@ + editor::cut(w, 8)).subrange(0, "workspace "@.len() as int)
        =~= "workspace "@);
}

/// The findings of a workspace are listed one by one behind their number, each
/// with its severity, title, score and state.
pub proof fn workspace_findings_are_listed(
    v: Seq<Finding>,
    scores: Seq<Option<String>>,
    w: Seq<char>,
    f: Finding,
    c: Seq<char>,
    k: int,
)
    requires
        scores.len() == v.len(),
    ensures
        v.len() > 0 ==> {
            let x = listing::findings_text(v, scores, w);
            &&& x.len() == v.len() + 1
            &&& text::contains(x[0], digits::dec(v.len()))
            &&& 0 <= k < v.len() ==> x[k + 1] == listing::finding_text(
                v[k],
                text::opt_view(scores[k]),
            )
        },
        v.len() == 0 ==> listing::findings_text(v, scores, w).len() == 1,
        text::contains(listing::finding_text(f, Some(c)), f.severity_label@),
        text::contains(listing::finding_text(f, Some(c)), f.title@),
        text::contains(listing::finding_text(f, Some(c)), c),
        text::contains(listing::finding_text(f, Some(c)), f.state_label@),
        text::contains(listing::finding_text(f, None), f.title@),
        text::contains(listing::finding_text(f, None), f.state_label@),
{
    let n = digits::dec(v.len());
    texts::texts_hold_themselves(n);
    texts::longer_texts_hold_it(n, " finding(s) in workspace "@, n);
    texts::longer_texts_hold_it(n + " finding(s) in workspace "@, editor::cut(w, 8), n);
    texts::longer_texts_hold_it(n + " finding(s) in workspace "@ + editor::cut(w, 8), "…:"@, n);
    let score = " CVSS:"@ + c;
    let none = Seq::<char>::empty();
    let t0 = "  ["@;
    let t1 = t0 + f.severity_label@;
    let t2 = t1 + "] "@;
    let t3 = t2 + f.title@;
    let t4 = t3 + score;
    let t5 = t4 + " · "@;
    let t6 = t5 + f.state_label@;
    assert(text::contains(t6, f.severity_label@)) by {
        texts::texts_hold_themselves(f.severity_label@);
        texts::longer_texts_hold_it(t0, f.severity_label@, f.severity_label@);
        texts::longer_texts_hold_it(t1, "] "@, f.severity_label@);
        texts::longer_texts_hold_it(t2, f.title@, f.severity_label@);
        texts::longer_texts_hold_it(t3, score, f.severity_label@);
        texts::longer_texts_hold_it(t4, " · "@, f.severity_label@);
        texts::longer_texts_hold_it(t5, f.state_label@, f.severity_label@);
    }
    assert(text::contains(t6, f.title@)) by {
        texts::texts_hold_themselves(f.title@);
        texts::longer_texts_hold_it(t2, f.title@, f.title@);
        texts::longer_texts_hold_it(t3, score, f.title@);
        texts::longer_texts_hold_it(t4, " · "@, f.title@);
        texts::longer_texts_hold_it(t5, f.state_label@, f.title@);
    }
    assert(text::contains(t6, c)) by {
        texts::texts_hold_themselves(c);
        texts::longer_texts_hold_it(" CVSS:"@, c, c);
        texts::longer_texts_hold_it(t3, score, c);
        texts::longer_texts_hold_it(t4, " · "@, c);
        texts::longer_texts_hold_it(t5, f.state_label@, c);
    }
    assert(text::contains(t6, f.state_label@)) by {
        texts::texts_hold_themselves(f.state_label@);
        texts::longer_texts_hold_it(t5, f.state_label@, f.state_label@);
    }
    let u0 = "  ["@;
    let u1 = u0 + f.severity_label@;
    let u2 = u1 + "] "@;
    let u3 = u2 + f.title@;
    let u4 = u3 + none;
    let u5 = u4 + " · "@;
    let u6 = u5 + f.state_label@;
    assert(text::contains(u6, f.title@)) by {
        texts::texts_hold_themselves(f.title@);
        texts::longer_texts_hold_it(u2, f.title@, f.title@);
        texts::longer_texts_hold_it(u3, none, f.title@);
        texts::longer_texts_hold_it(u4, " · "@, f.title@);
        texts::longer_texts_hold_it(u5, f.state_label@, f.title@);
    }
    assert(text::contains(u6, f.state_label@)) by {
        texts::texts_hold_themselves(f.state_label@);
        texts::longer_texts_hold_it(u5, f.state_label@, f.state_label@);
    }
}

/// Uploaded files go below the folder that was named, if any.
pub proof fn uploads_go_below_the_folder(d: Seq<char>)
    ensures
        listing::folder_prefix(None).len() == 0,
        pieces::trim_char(d, '/').len() == 0 ==> listing::folder_prefix(Some(d)).len() == 0,
        pieces::trim_char(d, '/').len() > 0 ==> listing::folder_prefix(Some(d)).last() == '/'
            && listing::folder_prefix(Some(d)).drop_last() == pieces::trim_char(d, '/'),
{
    reveal_strlit("/");
    let t = pieces::trim_char(d, '/');
    assert((t + "/"@).drop_last() =~= t);
}

/// What was uploaded is counted, and where it was copied to is told.
pub proof fn uploads_are_counted(n: nat, d: Seq<char>)
    ensures
        text::contains(listing::dropped_text(n, Some(d)), digits::dec(n)),
        text::contains(listing::dropped_text(n, Some(d)), d),
        text::contains(listing::dropped_text(n, None), digits::dec(n)),
{
    let where_to = " (synced to "@ + d + ")"@;
    texts::wholes_hold_their_parts(" (synced to "@, d, ")"@);
    let none = Seq::<char>::empty();
    let t0 = "✔ "@;
    let t1 = t0 + digits::dec(n);
    let t2 = t1 + " file(s) uploaded to the workspace"@;
    let t3 = t2 + where_to;
    assert(text::contains(t3, digits::dec(n))) by {
        texts::texts_hold_themselves(digits::dec(n));
        texts::longer_texts_hold_it(t0, digits::dec(n), digits::dec(n));
        texts::longer_texts_hold_it(t1, " file(s) uploaded to the workspace"@, digits::dec(n));
        texts::longer_texts_hold_it(t2, where_to, digits::dec(n));
    }
    assert(text::contains(t3, d)) by {
        texts::longer_texts_hold_it(t2, where_to, d);
    }
    let u0 = "✔ "@;
    let u1 = u0 + digits::dec(n);
    let u2 = u1 + " file(s) uploaded to the workspace"@;
    let u3 = u2 + none;
    assert(text::contains(u3, digits::dec(n))) by {
        texts::texts_hold_themselves(digits::dec(n));
        texts::longer_texts_hold_it(u0, digits::dec(n), digits::dec(n));
        texts::longer_texts_hold_it(u1, " file(s) uploaded to the workspace"@, digits::dec(n));
        texts::longer_texts_hold_it(u2, none, digits::dec(n));
    }
}

/// A template is listed by its short name, name and phases, with what it requires.
pub proof fn templates_are_listed(t: WorkflowTemplate, p: WorkflowTemplatePhase, k: int)
    ensures
        ({
            let v = remote::template_text(t);
            let n: int = if t.description@.len() == 0 {
                1
            } else {
                2
            };
            &&& text::contains(v[0], t.slug@)
            &&& text::contains(v[0], t.name@)
            &&& text::contains(v[0], digits::dec_int(t.phase_count as int))
            &&& 0 <= k < t.required_variables@.len() ==> text::contains(
                v[0],
                t.required_variables@[k]@,
            )
            &&& t.description@.len() > 0 ==> v[1] == "   "@ + t.description@
            &&& v.len() == n + t.phases@.len() + 1
            &&& 0 <= k < t.phases@.len() ==> v[n + k] == remote::template_phase(t.phases@[k])
        }),
        text::contains(remote::template_phase(p), p.name@),
        text::contains(remote::template_phase(p), digits::dec_int(p.order as int)),
        text::contains(remote::template_phase(p), digits::dec_int(p.task_count as int)),
{
    let v = remote::template_text(t);
    template_told(t, k);
    phase_told(p);
    let head = Seq::<Seq<char>>::empty().push(remote::template_head(t));
    let described = if t.description@.len() == 0 {
        head
    } else {
        head.push("   "@ + t.description@)
    };
    let phases = Seq::new(t.phases@.len(), |i: int| remote::template_phase(t.phases@[i]));
    assert(v == (described + phases).push(Seq::empty()));
    assert(v[0] == described[0]);
    if 0 <= k < t.phases@.len() {
        assert(v[described.len() + k] == phases[k]);
    }
}

proof fn phase_told(p: WorkflowTemplatePhase)
    ensures
        text::contains(remote::template_phase(p), p.name@),
        text::contains(remote::template_phase(p), digits::dec_int(p.order as int)),
        text::contains(remote::template_phase(p), digits::dec_int(p.task_count as int)),
{
    let t0 = "   "@;
    let t1 = t0 + digits::dec_int(p.order as int);
    let t2 = t1 + ": "@;
    let t3 = t2 + p.name@;
    let t4 = t3 + " ("@;
    let t5 = t4 + digits::dec_int(p.task_count as int);
    let t6 = t5 + " tasks)"@;
    assert(text::contains(t6, digits::dec_int(p.order as int))) by {
        texts::texts_hold_themselves(digits::dec_int(p.order as int));
        texts::longer_texts_hold_it(t0, digits::dec_int(p.order as int), digits::dec_int(p.order as int));
        texts::longer_texts_hold_it(t1, ": "@, digits::dec_int(p.order as int));
        texts::longer_texts_hold_it(t2, p.name@, digits::dec_int(p.order as int));
        texts::longer_texts_hold_it(t3, " ("@, digits::dec_int(p.order as int));
        texts::longer_texts_hold_it(t4, digits::dec_int(p.task_count as int), digits::dec_int(p.order as int));
        texts::longer_texts_hold_it(t5, " tasks)"@, digits::dec_int(p.order as int));
    }
    assert(text::contains(t6, p.name@)) by {
        texts::texts_hold_themselves(p.name@);
        texts::longer_texts_hold_it(t2, p.name@, p.name@);
        texts::longer_texts_hold_it(t3, " ("@, p.name@);
        texts::longer_texts_hold_it(t4, digits::dec_int(p.task_count as int), p.name@);
        texts::longer_texts_hold_it(t5, " tasks)"@, p.name@);
    }
    assert(text::contains(t6, digits::dec_int(p.task_count as int))) by {
        texts::texts_hold_themselves(digits::dec_int(p.task_count as int));
        texts::longer_texts_hold_it(t4, digits::dec_int(p.task_count as int), digits::dec_int(p.task_count as int));
        texts::longer_texts_hold_it(t5, " tasks)"@, digits::dec_int(p.task_count as int));
    }
}

proof fn template_told(t: WorkflowTemplate, k: int)
    ensures
        text::contains(remote::template_head(t), t.slug@),
        text::contains(remote::template_head(t), t.name@),
        text::contains(remote::template_head(t), digits::dec_int(t.phase_count as int)),
        0 <= k < t.required_variables@.len() ==> text::contains(
            remote::template_head(t),
            t.required_variables@[k]@,
        ),
{
    let icon = panels::named(t.icon@, "•"@);
    let names = text::views(t.required_variables@);
    let listed = pieces::join(names, ", "@);
    let needs = if t.required_variables@.len() == 0 {
        Seq::empty()
    } else {
        "  requires: "@ + listed
    };
    let t0 = icon;
    let t1 = t0 + " "@;
    let t2 = t1 + t.slug@;
    let t3 = t2 + "  ["@;
    let t4 = t3 + t.name@;
    let t5 = t4 + "]  "@;
    let t6 = t5 + digits::dec_int(t.phase_count as int);
    let t7 = t6 + " phases"@;
    let t8 = t7 + needs;
    assert(text::contains(t8, t.slug@)) by {
        texts::texts_hold_themselves(t.slug@);
        texts::longer_texts_hold_it(t1, t.slug@, t.slug@);
        texts::longer_texts_hold_it(t2, "  ["@, t.slug@);
        texts::longer_texts_hold_it(t3, t.name@, t.slug@);
        texts::longer_texts_hold_it(t4, "]  "@, t.slug@);
        texts::longer_texts_hold_it(t5, digits::dec_int(t.phase_count as int), t.slug@);
        texts::longer_texts_hold_it(t6, " phases"@, t.slug@);
        texts::longer_texts_hold_it(t7, needs, t.slug@);
    }
    assert(text::contains(t8, t.name@)) by {
        texts::texts_hold_themselves(t.name@);
        texts::longer_texts_hold_it(t3, t.name@, t.name@);
        texts::longer_texts_hold_it(t4, "]  "@, t.name@);
        texts::longer_texts_hold_it(t5, digits::dec_int(t.phase_count as int), t.name@);
        texts::longer_texts_hold_it(t6, " phases"@, t.name@);
        texts::longer_texts_hold_it(t7, needs, t.name@);
    }
    assert(text::contains(t8, digits::dec_int(t.phase_count as int))) by {
        texts::texts_hold_themselves(digits::dec_int(t.phase_count as int));
        texts::longer_texts_hold_it(t5, digits::dec_int(t.phase_count as int), digits::dec_int(t.phase_count as int));
        texts::longer_texts_hold_it(t6, " phases"@, digits::dec_int(t.phase_count as int));
        texts::longer_texts_hold_it(t7, needs, digits::dec_int(t.phase_count as int));
    }
    assert(remote::template_head(t) == t8);
    if 0 <= k < t.required_variables@.len() {
        let x = t.required_variables@[k]@;
        assert(names[k] == x);
        texts::joined_texts_hold_each(names, ", "@, k);
        texts::longer_texts_hold_it("  requires: "@, listed, x);
        texts::longer_texts_hold_it(t7, needs, x);
    }
}

/// The state of a workflow tells its id, status and how many of its tasks are
/// done, and lists its phases; the current one is marked.
pub proof fn workflow_states_are_told(w: WorkflowState, k: int)
    ensures
        ({
            let v = remote::state_text(w);
            &&& v[0] == "workflow  "@ + w.workflow_id@
            &&& v[1] == "status    "@ + w.status@
            &&& v.contains(
                "tasks     "@ + digits::dec_int(w.completed_tasks as int) + "/"@ + digits::dec_int(
                    w.total_tasks as int,
                ),
            )
            &&& w.started_at matches Some(t) ==> v.contains("started   "@ + t@)
            &&& w.completed_at matches Some(t) ==> v.contains("finished  "@ + t@)
            &&& w.template_slug matches Some(t) ==> v.contains("template  "@ + t@)
            &&& w.current_phase_key matches Some(t) ==> v.contains("phase     "@ + t@)
            &&& 0 <= k < w.phases@.len() ==> v.contains(
                remote::phase_text(w.phases@[k], w.current_phase_key),
            )
        }),
{
    let a = Seq::<Seq<char>>::empty().push("workflow  "@ + w.workflow_id@).push(
        "status    "@ + w.status@,
    );
    let b = remote::opt_line(a, "template  "@, w.template_slug);
    let c = remote::opt_line(b, "version   "@, w.template_version);
    let d = remote::opt_line(c, "phase     "@, w.current_phase_key);
    let tasks = "tasks     "@ + digits::dec_int(w.completed_tasks as int) + "/"@ + digits::dec_int(
        w.total_tasks as int,
    );
    let e = d.push(tasks);
    let f = remote::opt_line(e, "started   "@, w.started_at);
    let g = remote::opt_line(f, "finished  "@, w.completed_at);
    let v = remote::state_text(w);
    let shown = Seq::new(
        w.phases@.len(),
        |i: int| remote::phase_text(w.phases@[i], w.current_phase_key),
    );
    assert(w.phases@.len() == 0 ==> v == g);
    assert(w.phases@.len() > 0 ==> v == g.push("\nphases:"@) + shown);
    assert(forall|i: int| 0 <= i < a.len() ==> #[trigger] v[i] == a[i]);
    assert(v[d.len() as int] == tasks);
    if w.template_slug is Some {
        assert(v[a.len() as int] == "template  "@ + w.template_slug->0@);
    }
    if w.current_phase_key is Some {
        assert(v[c.len() as int] == "phase     "@ + w.current_phase_key->0@);
    }
    if w.started_at is Some {
        assert(v[e.len() as int] == "started   "@ + w.started_at->0@);
    }
    if w.completed_at is Some {
        assert(v[f.len() as int] == "finished  "@ + w.completed_at->0@);
    }
    if 0 <= k < w.phases@.len() {
        assert(v[g.len() + 1 + k] == shown[k]);
    }
}

/// A phase is listed by its status, key and name, with an arrow where it is the
/// current one.
pub proof fn phases_are_listed(p: WorkflowStatePhase, current: Option<String>)
    ensures
        text::contains(remote::phase_text(p, current), p.status@),
        text::contains(remote::phase_text(p, current), p.phase_key@),
        text::contains(remote::phase_text(p, current), p.phase_name@),
        current matches Some(c) ==> c@ == p.phase_key@ ==> text::contains(
            remote::phase_text(p, current),
            " ←"@,
        ),
{
    let s = digits::pad_left(p.status@, ' ', 12);
    let arrow = if text::opt_view(current) == Some(p.phase_key@) {
        " ←"@
    } else {
        Seq::empty()
    };
    let gap = Seq::new((12 - p.status@.len()) as nat, |i: int| ' ');
    texts::texts_hold_themselves(p.status@);
    texts::longer_texts_hold_it(gap, p.status@, p.status@);
    let t0 = "  "@;
    let t1 = t0 + s;
    let t2 = t1 + "  "@;
    let t3 = t2 + p.phase_key@;
    let t4 = t3 + "  "@;
    let t5 = t4 + p.phase_name@;
    let t6 = t5 + arrow;
    assert(text::contains(t6, p.status@)) by {
        texts::longer_texts_hold_it(t0, s, p.status@);
        texts::longer_texts_hold_it(t1, "  "@, p.status@);
        texts::longer_texts_hold_it(t2, p.phase_key@, p.status@);
        texts::longer_texts_hold_it(t3, "  "@, p.status@);
        texts::longer_texts_hold_it(t4, p.phase_name@, p.status@);
        texts::longer_texts_hold_it(t5, arrow, p.status@);
    }
    assert(text::contains(t6, p.phase_key@)) by {
        texts::texts_hold_themselves(p.phase_key@);
        texts::longer_texts_hold_it(t2, p.phase_key@, p.phase_key@);
        texts::longer_texts_hold_it(t3, "  "@, p.phase_key@);
        texts::longer_texts_hold_it(t4, p.phase_name@, p.phase_key@);
        texts::longer_texts_hold_it(t5, arrow, p.phase_key@);
    }
    assert(text::contains(t6, p.phase_name@)) by {
        texts::texts_hold_themselves(p.phase_name@);
        texts::longer_texts_hold_it(t4, p.phase_name@, p.phase_name@);
        texts::longer_texts_hold_it(t5, arrow, p.phase_name@);
    }
    assert(text::contains(t6, arrow)) by {
        texts::texts_hold_themselves(arrow);
        texts::longer_texts_hold_it(t5, arrow, arrow);
    }
    assert(remote::phase_text(p, current) == t6);
}

/// What is asked for is what is required and not yet set, in its order.
pub proof fn missing_values_are_asked_for(
    v: Seq<Seq<char>>,
    have: Map<Seq<char>, String>,
    n: int,
    x: Seq<char>,
)
    requires
        0 <= n <= v.len(),
    ensures
        remote::unset(v, have, n).contains(x) <==> v.take(n).contains(x) && !have.dom().contains(x),
    decreases n,
{
    if n > 0 {
        missing_values_are_asked_for(v, have, n - 1, x);
        let r = remote::unset(v, have, n - 1);
        assert(v.take(n) =~= v.take(n - 1).push(v[n - 1]));
        pushed_are_held(v.take(n - 1), v[n - 1], x);
        pushed_are_held(r, v[n - 1], x);
    } else {
        assert(v.take(0).len() == 0);
    }
}

proof fn pushed_are_held(s: Seq<Seq<char>>, y: Seq<char>, x: Seq<char>)
    ensures
        s.push(y).contains(x) <==> s.contains(x) || x == y,
{
    let t = s.push(y);
    assert(t[s.len() as int] == y);
    if s.contains(x) {
        let k = choose|k: int| 0 <= k < s.len() && s[k] == x;
        assert(t[k] == x);
    }
    if t.contains(x) {
        let k = choose|k: int| 0 <= k < t.len() && t[k] == x;
        if k < s.len() {
            assert(s[k] == x);
        }
    }
}

} // verus!
