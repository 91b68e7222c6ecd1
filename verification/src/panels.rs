//! The entries of the lists that a session offers: findings, approvals,
//! threads, workspaces, files and models.

use vstd::prelude::*;
use crate::api::{Approval, Finding, Thread, Workspace};
use crate::blocks;
use crate::blocks::OverlayItem;
use crate::digits;
use crate::json;
use crate::pieces;
use crate::text;

verus! {

broadcast use {
    vstd::seq::group_seq_axioms,
    vstd::string::group_string_axioms,
    text::views_push,
    text::views_empty,
    blocks::overlay_items_push,
    blocks::overlay_items_empty,
};

pub open spec fn no_lines() -> Seq<Seq<char>> {
    Seq::empty()
}

fn blank() -> (r: String)
    ensures
        r@ == Seq::<char>::empty(),
{
    let r = "".to_owned();
    proof {
        reveal_strlit("");
        assert(r@ =~= Seq::<char>::empty());
    }
    r
}

/// Two or three texts in a row.
fn chain(a: &str, b: &str, c: &str) -> (r: String)
    ensures
        r@ == a@ + b@ + c@,
{
    let mut r = a.to_owned();
    r.push_str(b);
    r.push_str(c);
    r
}

fn pair(a: &str, b: &str) -> (r: String)
    ensures
        r@ == a@ + b@,
{
    let mut r = a.to_owned();
    r.push_str(b);
    r
}

fn add_lines(out: &mut Vec<String>, body: &str)
    ensures
        text::views(final(out)@) == text::views(old(out)@) + pieces::lines(body@),
{
    let mut lines = pieces::str_lines(body);
    let ghost before = out@;
    let ghost added = lines@;
    out.append(&mut lines);
    assert(text::views(before + added) =~= text::views(before) + text::views(added));
}

// ---- findings -------------------------------------------------------------------------------

/// A headed passage, or nothing where there is nothing to show.
pub open spec fn passage(head: Seq<char>, body: Seq<char>) -> Seq<Seq<char>> {
    if pieces::is_blank(body) {
        no_lines()
    } else {
        no_lines().push(Seq::empty()).push(head) + pieces::lines(body)
    }
}

fn add_passage(out: &mut Vec<String>, head: &str, body: &str)
    ensures
        text::views(final(out)@) == text::views(old(out)@) + passage(head@, body@),
{
    let ghost before = text::views(out@);
    if !pieces::str_is_blank(body) {
        out.push(blank());
        out.push(head.to_owned());
        add_lines(out, body);
        assert(before.push(Seq::empty()).push(head@) + pieces::lines(body@) =~= before + passage(
            head@,
            body@,
        ));
    } else {
        assert(before + no_lines() =~= before);
    }
}

pub open spec fn finding_detail(f: Finding) -> Seq<Seq<char>> {
    let top = no_lines().push(f.title@).push(Seq::empty()).push(
        "Severity: "@ + f.severity_label@ + "    State: "@ + f.state_label@ + "    CVSS: "@
            + text::text_or(text::opt_view(f.cvss), "-"@),
    );
    let asset = match f.asset {
        Some(a) => top.push("Asset: "@ + a@),
        None => top,
    };
    asset.push("Finding ID: "@ + digits::dec_int(f.id as int)) + passage(
        "── Description ──"@,
        f.description@,
    ) + passage("── Mitigation ──"@, f.mitigation@)
}

pub open spec fn finding_item(f: Finding) -> blocks::OverlayItemView {
    blocks::OverlayItemView {
        label: "["@ + f.severity_label@ + "] "@ + text::truncated(f.title@, 80) + "  · "@
            + f.state_label@,
        detail: finding_detail(f),
        action: Some(digits::dec_int(f.id as int)),
    }
}

fn item_of_finding(f: &Finding) -> (r: OverlayItem)
    ensures
        r@ == finding_item(*f),
{
    let mut label = "[".to_owned();
    label.push_str(&f.severity_label);
    label.push_str("] ");
    let short = text::truncate(&f.title, 80);
    label.push_str(&short);
    label.push_str("  · ");
    label.push_str(&f.state_label);
    let mut detail: Vec<String> = Vec::new();
    detail.push(f.title.clone());
    detail.push(blank());
    let mut line = "Severity: ".to_owned();
    line.push_str(&f.severity_label);
    line.push_str("    State: ");
    line.push_str(&f.state_label);
    line.push_str("    CVSS: ");
    let score = text::opt_or(&f.cvss, "-");
    line.push_str(&score);
    detail.push(line);
    if let Some(a) = &f.asset {
        detail.push(pair("Asset: ", a));
    }
    let id = digits::i64_to_string(f.id);
    detail.push(pair("Finding ID: ", &id));
    add_passage(&mut detail, "── Description ──", &f.description);
    add_passage(&mut detail, "── Mitigation ──", &f.mitigation);
    OverlayItem { label, detail, action: Some(id) }
}

/// The entries of the list of findings.
pub fn finding_items(fs: &Vec<Finding>) -> (r: Vec<OverlayItem>)
    ensures
        blocks::overlay_items(r@) == Seq::new(fs@.len(), |i: int| finding_item(fs@[i])),
{
    let ghost want = Seq::new(fs@.len(), |i: int| finding_item(fs@[i]));
    let mut out: Vec<OverlayItem> = Vec::new();
    let mut i: usize = 0;
    assert(want.take(0) =~= Seq::empty());
    while i < fs.len()
        invariant
            i <= fs@.len(),
            want == Seq::new(fs@.len(), |i: int| finding_item(fs@[i])),
            blocks::overlay_items(out@) == want.take(i as int),
        decreases fs@.len() - i,
    {
        out.push(item_of_finding(&fs[i]));
        assert(want.take(i + 1) =~= want.take(i as int).push(want[i as int]));
        i += 1;
    }
    assert(want.take(want.len() as int) =~= want);
    out
}

// ---- approvals -------------------------------------------------------------------------------

pub open spec fn approval_detail(a: Approval) -> Seq<Seq<char>> {
    let targets = json::compact_text(json::normal(a.target_ids@));
    let top = no_lines().push("Action: "@ + a.action_type@).push(
        "Module: "@ + a.module@ + "    State: "@ + a.state@,
    ).push(Seq::empty()).push("── Summary ──"@) + pieces::lines(a.summary@);
    if targets != "null"@ && targets.len() > 0 {
        top.push(Seq::empty()).push("Targets: "@ + targets)
    } else {
        top
    }
}

pub open spec fn approval_item(a: Approval) -> blocks::OverlayItemView {
    blocks::OverlayItemView {
        label: "["@ + a.state@ + "] "@ + a.action_type@ + "  · "@ + text::truncated(
            a.summary@,
            70,
        ),
        detail: approval_detail(a),
        action: Some(a.id@),
    }
}

fn item_of_approval(a: &Approval) -> (r: OverlayItem)
    ensures
        r@ == approval_item(*a),
{
    let mut label = "[".to_owned();
    label.push_str(&a.state);
    label.push_str("] ");
    label.push_str(&a.action_type);
    label.push_str("  · ");
    let short = text::truncate(&a.summary, 70);
    label.push_str(&short);
    let mut detail: Vec<String> = Vec::new();
    detail.push(pair("Action: ", &a.action_type));
    let mut line = "Module: ".to_owned();
    line.push_str(&a.module);
    line.push_str("    State: ");
    line.push_str(&a.state);
    detail.push(line);
    detail.push(blank());
    detail.push("── Summary ──".to_owned());
    add_lines(&mut detail, &a.summary);
    let targets = json::to_text(&a.target_ids);
    if !text::str_eq(&targets, "null") && !targets.as_str().is_empty() {
        detail.push(blank());
        detail.push(pair("Targets: ", &targets));
    }
    OverlayItem { label, detail, action: Some(a.id.clone()) }
}

/// The entries of the list of approvals.
pub fn approval_items(aps: &Vec<Approval>) -> (r: Vec<OverlayItem>)
    ensures
        blocks::overlay_items(r@) == Seq::new(aps@.len(), |i: int| approval_item(aps@[i])),
{
    let ghost want = Seq::new(aps@.len(), |i: int| approval_item(aps@[i]));
    let mut out: Vec<OverlayItem> = Vec::new();
    let mut i: usize = 0;
    assert(want.take(0) =~= Seq::empty());
    while i < aps.len()
        invariant
            i <= aps@.len(),
            want == Seq::new(aps@.len(), |i: int| approval_item(aps@[i])),
            blocks::overlay_items(out@) == want.take(i as int),
        decreases aps@.len() - i,
    {
        out.push(item_of_approval(&aps[i]));
        assert(want.take(i + 1) =~= want.take(i as int).push(want[i as int]));
        i += 1;
    }
    assert(want.take(want.len() as int) =~= want);
    out
}

// ---- threads ----------------------------------------------------------------------------------

/// The id that stands for a thread still to be made.
pub const NEW_THREAD: &'static str = "__new__";

/// The id that stands for a workspace still to be made.
pub const NEW_WORKSPACE: &'static str = "__new_ws__";

/// A name, or what stands for an empty one.
pub open spec fn named(name: Seq<char>, other: Seq<char>) -> Seq<char> {
    if name.len() == 0 {
        other
    } else {
        name
    }
}

fn name_or(name: &str, other: &str) -> (r: String)
    ensures
        r@ == named(name@, other@),
{
    if name.is_empty() {
        other.to_owned()
    } else {
        name.to_owned()
    }
}

pub open spec fn new_thread_item(in_workspace: bool) -> blocks::OverlayItemView {
    blocks::OverlayItemView {
        label: if in_workspace {
            "➕  New chat (in this workspace)"@
        } else {
            "➕  New chat"@
        },
        detail: no_lines().push("Press Enter to start a new chat thread."@),
        action: Some(NEW_THREAD@),
    }
}

pub open spec fn thread_item(t: Thread, current: Seq<char>) -> blocks::OverlayItemView {
    let title = named(t.title@, "(untitled)"@);
    blocks::OverlayItemView {
        label: title + (if t.id@ == current {
            " ●"@
        } else {
            Seq::empty()
        }) + "  · "@ + t.status@ + "  "@ + text::truncated(t.last_message@, 50),
        detail: no_lines().push(title).push("status: "@ + t.status@).push("id: "@ + t.id@).push(
            Seq::empty(),
        ).push("Press Enter to switch to this thread."@),
        action: Some(t.id@),
    }
}

fn item_of_thread(t: &Thread, current: &str) -> (r: OverlayItem)
    ensures
        r@ == thread_item(*t, current@),
{
    let title = name_or(&t.title, "(untitled)");
    let mut label = title.clone();
    if text::str_eq(&t.id, current) {
        label.push_str(" ●");
    } else {
        assert(label@ + Seq::<char>::empty() =~= label@);
    }
    label.push_str("  · ");
    label.push_str(&t.status);
    label.push_str("  ");
    let short = text::truncate(&t.last_message, 50);
    label.push_str(&short);
    let mut detail: Vec<String> = Vec::new();
    detail.push(title);
    detail.push(pair("status: ", &t.status));
    detail.push(pair("id: ", &t.id));
    detail.push(blank());
    detail.push("Press Enter to switch to this thread.".to_owned());
    OverlayItem { label, detail, action: Some(t.id.clone()) }
}

/// The entries of the list of threads: a new one first.
pub fn thread_items(ts: &Vec<Thread>, current: &str, in_workspace: bool) -> (r: Vec<OverlayItem>)
    ensures
        blocks::overlay_items(r@) == Seq::empty().push(new_thread_item(in_workspace)) + Seq::new(
            ts@.len(),
            |i: int| thread_item(ts@[i], current@),
        ),
{
    let ghost want = Seq::new(ts@.len(), |i: int| thread_item(ts@[i], current@));
    let ghost head = Seq::<blocks::OverlayItemView>::empty().push(new_thread_item(in_workspace));
    let mut out: Vec<OverlayItem> = Vec::new();
    let mut first: Vec<String> = Vec::new();
    first.push("Press Enter to start a new chat thread.".to_owned());
    let label = if in_workspace {
        "➕  New chat (in this workspace)".to_owned()
    } else {
        "➕  New chat".to_owned()
    };
    out.push(OverlayItem { label, detail: first, action: Some(NEW_THREAD.to_owned()) });
    let mut i: usize = 0;
    assert(head + want.take(0) =~= head);
    while i < ts.len()
        invariant
            i <= ts@.len(),
            want == Seq::new(ts@.len(), |i: int| thread_item(ts@[i], current@)),
            blocks::overlay_items(out@) == head + want.take(i as int),
        decreases ts@.len() - i,
    {
        out.push(item_of_thread(&ts[i], current));
        assert(head + want.take(i + 1) =~= (head + want.take(i as int)).push(want[i as int]));
        i += 1;
    }
    assert(want.take(want.len() as int) =~= want);
    out
}

// ---- workspaces --------------------------------------------------------------------------------

/// What is known of a workspace besides what the backend lists: the credits are
/// written with two and with three decimals.
pub struct WorkspaceStats {
    pub threads: Option<usize>,
    pub credits: String,
    pub credits_exact: String,
    pub opens: u64,
}

pub open spec fn threads_text(n: Option<usize>) -> Seq<char> {
    match n {
        Some(k) => digits::dec(k as nat) + " threads"@,
        None => "? threads"@,
    }
}

pub open spec fn new_workspace_item() -> blocks::OverlayItemView {
    blocks::OverlayItemView {
        label: "➕  New workspace"@,
        detail: no_lines().push("Press Enter to create a new workspace."@).push(
            "The AI setup chat opens to configure & name it."@,
        ),
        action: Some(NEW_WORKSPACE@),
    }
}

pub open spec fn workspace_item(
    w: Workspace,
    s: WorkspaceStats,
    bound: Option<Seq<char>>,
) -> blocks::OverlayItemView {
    let name = named(w.name@, "(unnamed)"@);
    let top = no_lines().push(name).push("status: "@ + w.status@).push(
        "threads: "@ + threads_text(s.threads),
    ).push("credits: "@ + s.credits_exact@);
    let opened = if s.opens > 0 {
        top.push("opened "@ + digits::dec(s.opens as nat) + "× from this machine"@)
    } else {
        top
    };
    blocks::OverlayItemView {
        label: name + (if bound == Some(w.id@) {
            " ●"@
        } else {
            Seq::empty()
        }) + "  · "@ + w.status@ + " · "@ + threads_text(s.threads) + " · ◈ "@ + s.credits@
            + " cr"@ + (if s.opens > 0 {
            " · ↻ recent ×"@ + digits::dec(s.opens as nat)
        } else {
            Seq::empty()
        }),
        detail: opened.push("id: "@ + w.id@).push(Seq::empty()).push(
            "Press Enter to bind this workspace (enables ^F / ^A)."@,
        ),
        action: Some(w.id@),
    }
}

fn item_of_workspace(w: &Workspace, s: &WorkspaceStats, bound: &Option<String>) -> (r: OverlayItem)
    ensures
        r@ == workspace_item(*w, *s, text::opt_view(*bound)),
{
    let name = name_or(&w.name, "(unnamed)");
    let threads = match s.threads {
        Some(k) => {
            let n = digits::usize_to_string(k);
            pair(&n, " threads")
        },
        None => "? threads".to_owned(),
    };
    let opens = digits::u64_to_string(s.opens);
    let mut label = name.clone();
    if text::opt_is(bound, &w.id) {
        label.push_str(" ●");
    } else {
        assert(label@ + Seq::<char>::empty() =~= label@);
    }
    label.push_str("  · ");
    label.push_str(&w.status);
    label.push_str(" · ");
    label.push_str(&threads);
    label.push_str(" · ◈ ");
    label.push_str(&s.credits);
    label.push_str(" cr");
    if s.opens > 0 {
        let recent = pair(" · ↻ recent ×", &opens);
        label.push_str(&recent);
    } else {
        assert(label@ + Seq::<char>::empty() =~= label@);
    }
    let mut detail: Vec<String> = Vec::new();
    detail.push(name);
    detail.push(pair("status: ", &w.status));
    detail.push(pair("threads: ", &threads));
    detail.push(pair("credits: ", &s.credits_exact));
    if s.opens > 0 {
        detail.push(chain("opened ", &opens, "× from this machine"));
    }
    detail.push(pair("id: ", &w.id));
    detail.push(blank());
    detail.push("Press Enter to bind this workspace (enables ^F / ^A).".to_owned());
    OverlayItem { label, detail, action: Some(w.id.clone()) }
}

/// The entries of the list of workspaces: a new one first.
pub fn workspace_items(
    ws: &Vec<Workspace>,
    stats: &Vec<WorkspaceStats>,
    bound: &Option<String>,
) -> (r: Vec<OverlayItem>)
    requires
        stats@.len() == ws@.len(),
    ensures
        blocks::overlay_items(r@) == Seq::empty().push(new_workspace_item()) + Seq::new(
            ws@.len(),
            |i: int| workspace_item(ws@[i], stats@[i], text::opt_view(*bound)),
        ),
{
    let ghost b = text::opt_view(*bound);
    let ghost want = Seq::new(ws@.len(), |i: int| workspace_item(ws@[i], stats@[i], b));
    let ghost head = Seq::<blocks::OverlayItemView>::empty().push(new_workspace_item());
    let mut out: Vec<OverlayItem> = Vec::new();
    let mut first: Vec<String> = Vec::new();
    first.push("Press Enter to create a new workspace.".to_owned());
    first.push("The AI setup chat opens to configure & name it.".to_owned());
    out.push(
        OverlayItem {
            label: "➕  New workspace".to_owned(),
            detail: first,
            action: Some(NEW_WORKSPACE.to_owned()),
        },
    );
    let mut i: usize = 0;
    assert(head + want.take(0) =~= head);
    while i < ws.len()
        invariant
            i <= ws@.len(),
            stats@.len() == ws@.len(),
            b == text::opt_view(*bound),
            want == Seq::new(ws@.len(), |i: int| workspace_item(ws@[i], stats@[i], b)),
            blocks::overlay_items(out@) == head + want.take(i as int),
        decreases ws@.len() - i,
    {
        out.push(item_of_workspace(&ws[i], &stats[i], bound));
        assert(head + want.take(i + 1) =~= (head + want.take(i as int)).push(want[i as int]));
        i += 1;
    }
    assert(want.take(want.len() as int) =~= want);
    out
}

// ---- the order of workspaces ---------------------------------------------------------------------

/// How often a workspace was opened from this machine, and when last.
#[derive(Clone, Copy, Debug, PartialEq, Eq, Structural)]
pub struct Opened {
    pub count: u64,
    pub last: u64,
}

/// Opened more often, or as often and more recently.
pub open spec fn ahead(a: Opened, b: Opened) -> bool {
    a.count > b.count || (a.count == b.count && a.last > b.last)
}

/// `i` put into an order behind everything that it is not ahead of.
pub open spec fn placed(v: Seq<Opened>, s: Seq<usize>, i: usize) -> Seq<usize>
    decreases s.len(),
{
    if s.len() == 0 || !ahead(v[i as int], v[s.last() as int]) {
        s.push(i)
    } else {
        placed(v, s.drop_last(), i).push(s.last())
    }
}

/// The first `n` positions, those opened most often first; what was opened
/// alike keeps its order.
pub open spec fn opened_first(v: Seq<Opened>, n: int) -> Seq<usize>
    decreases n,
{
    if n <= 0 {
        Seq::empty()
    } else {
        placed(v, opened_first(v, n - 1), (n - 1) as usize)
    }
}

fn is_ahead(a: Opened, b: Opened) -> (r: bool)
    ensures
        r == ahead(a, b),
{
    a.count > b.count || (a.count == b.count && a.last > b.last)
}

fn place(v: &Vec<Opened>, s: &mut Vec<usize>, i: usize)
    requires
        i < v@.len(),
        forall|k: int| 0 <= k < old(s)@.len() ==> (#[trigger] old(s)@[k]) < v@.len(),
    ensures
        final(s)@ == placed(v@, old(s)@, i),
        forall|k: int| 0 <= k < final(s)@.len() ==> (#[trigger] final(s)@[k]) < v@.len(),
{
    let n: usize = s.len();
    let mut k: usize = n;
    let ghost all = s@;
    assert(all.take(n as int) =~= all);
    assert(placed(v@, all, i) + all.skip(n as int) =~= placed(v@, all, i));
    while k > 0 && is_ahead(v[i], v[s[k - 1]])
        invariant
            k <= n,
            n == all.len(),
            s@ == all,
            i < v@.len(),
            forall|k: int| 0 <= k < all.len() ==> (#[trigger] all[k]) < v@.len(),
            placed(v@, all, i) == placed(v@, all.take(k as int), i) + all.skip(k as int),
        decreases k,
    {
        proof {
            let t = all.take(k as int);
            assert(t.drop_last() =~= all.take(k - 1));
            assert(t.last() == all[k - 1]);
            let p = placed(v@, all.take(k - 1), i);
            assert(p.push(all[k - 1]) + all.skip(k as int) =~= p + all.skip(k - 1));
        }
        k -= 1;
    }
    proof {
        let t = all.take(k as int);
        if k > 0 {
            assert(t.last() == all[k - 1]);
        }
        assert(t.push(i) + all.skip(k as int) =~= all.insert(k as int, i));
    }
    s.insert(k, i);
}

/// The positions of workspaces, those opened most often first, then those
/// opened most recently; what was opened alike keeps its order.
pub fn most_opened(v: &Vec<Opened>) -> (r: Vec<usize>)
    ensures
        r@ == opened_first(v@, v@.len() as int),
        forall|k: int| 0 <= k < r@.len() ==> (#[trigger] r@[k]) < v@.len(),
{
    let n: usize = v.len();
    let mut out: Vec<usize> = Vec::new();
    let mut i: usize = 0;
    while i < n
        invariant
            i <= n,
            n == v@.len(),
            out@ == opened_first(v@, i as int),
            forall|k: int| 0 <= k < out@.len() ==> (#[trigger] out@[k]) < v@.len(),
        decreases n - i,
    {
        place(v, &mut out, i);
        i += 1;
    }
    out
}

/// `x` may stand before `y`: what `y` stands for is not ahead, and where both
/// were opened alike `x` is the smaller position.
pub open spec fn may_precede(v: Seq<Opened>, x: usize, y: usize) -> bool {
    !ahead(v[y as int], v[x as int]) && (v[x as int] == v[y as int] ==> x < y)
}

/// No position stands behind one that it is ahead of, and positions opened alike
/// keep their order.
pub open spec fn is_ranked(v: Seq<Opened>, s: Seq<usize>) -> bool {
    forall|i: int, j: int|
        0 <= i < j < s.len() ==> may_precede(v, #[trigger] s[i], #[trigger] s[j])
}

proof fn placing_ranks(v: Seq<Opened>, s: Seq<usize>, i: usize)
    requires
        is_ranked(v, s),
        forall|k: int| 0 <= k < s.len() ==> (#[trigger] s[k]) < i,
    ensures
        is_ranked(v, placed(v, s, i)),
        placed(v, s, i).len() == s.len() + 1,
        placed(v, s, i).to_multiset() =~= s.to_multiset().insert(i),
        forall|k: int|
            0 <= k < placed(v, s, i).len() ==> #[trigger] placed(v, s, i)[k] == i || s.contains(
                placed(v, s, i)[k],
            ),
    decreases s.len(),
{
    broadcast use vstd::seq_lib::group_to_multiset_ensures;

    let t = placed(v, s, i);
    if s.len() == 0 || !ahead(v[i as int], v[s.last() as int]) {
        assert(t == s.push(i));
        assert forall|k: int| 0 <= k < t.len() implies #[trigger] t[k] == i || s.contains(t[k]) by {
            if k < s.len() {
                assert(s[k] == t[k]);
            }
        }
        assert forall|a: int, b: int| 0 <= a < b < t.len() implies may_precede(
            v,
            #[trigger] t[a],
            #[trigger] t[b],
        ) by {
            assert(t[a] == s[a]);
            if b == s.len() {
                let last = s.len() - 1;
                assert(t[b] == i);
                assert(s[last] == s.last());
                if a < last {
                    assert(may_precede(v, s[a], s[last]));
                }
            } else {
                assert(t[b] == s[b]);
                assert(may_precede(v, s[a], s[b]));
            }
        }
    } else {
        let d = s.drop_last();
        let rest = placed(v, d, i);
        assert forall|k: int| 0 <= k < d.len() implies (#[trigger] d[k]) < i by {
            assert(d[k] == s[k]);
        }
        assert(is_ranked(v, d)) by {
            assert forall|a: int, b: int| 0 <= a < b < d.len() implies may_precede(
                v,
                #[trigger] d[a],
                #[trigger] d[b],
            ) by {
                assert(d[a] == s[a] && d[b] == s[b]);
            }
        }
        placing_ranks(v, d, i);
        assert(t == rest.push(s.last()));
        assert(s =~= d.push(s.last()));
        assert(t.to_multiset() =~= s.to_multiset().insert(i));
        assert forall|k: int| 0 <= k < t.len() implies #[trigger] t[k] == i || s.contains(t[k]) by {
            if k < rest.len() {
                assert(t[k] == rest[k]);
                if rest[k] != i {
                    let m = choose|m: int| 0 <= m < d.len() && d[m] == rest[k];
                    assert(s[m] == t[k]);
                }
            } else {
                assert(s[s.len() - 1] == t[k]);
            }
        }
        assert forall|a: int, b: int| 0 <= a < b < t.len() implies may_precede(
            v,
            #[trigger] t[a],
            #[trigger] t[b],
        ) by {
            assert(t[a] == rest[a]);
            if b == rest.len() {
                let last = s.len() - 1;
                assert(t[b] == s[last]);
                if rest[a] != i {
                    let m = choose|m: int| 0 <= m < d.len() && d[m] == rest[a];
                    assert(s[m] == rest[a]);
                    assert(may_precede(v, s[m], s[last]));
                }
            } else {
                assert(t[b] == rest[b]);
                assert(may_precede(v, rest[a], rest[b]));
            }
        }
    }
}

/// Every position occurs once in the order, what was opened more often or more
/// recently comes first, and what was opened alike keeps its order.
pub proof fn opened_first_ranks(v: Seq<Opened>, n: int)
    requires
        0 <= n <= v.len() <= usize::MAX,
    ensures
        is_ranked(v, opened_first(v, n)),
        opened_first(v, n).len() == n,
        opened_first(v, n).to_multiset() =~= Seq::new(n as nat, |i: int| i as usize).to_multiset(),
    decreases n,
{
    broadcast use vstd::seq_lib::group_to_multiset_ensures;

    let all = Seq::new(n as nat, |i: int| i as usize);
    if n > 0 {
        opened_first_ranks(v, n - 1);
        positions_below(v, n - 1);
        let before = Seq::new((n - 1) as nat, |i: int| i as usize);
        placing_ranks(v, opened_first(v, n - 1), (n - 1) as usize);
        assert(all =~= before.push((n - 1) as usize));
    } else {
        assert(all =~= Seq::<usize>::empty());
    }
}

proof fn positions_below(v: Seq<Opened>, n: int)
    requires
        0 <= n <= v.len() <= usize::MAX,
    ensures
        forall|k: int|
            0 <= k < opened_first(v, n).len() ==> (#[trigger] opened_first(v, n)[k]) < n,
        is_ranked(v, opened_first(v, n)),
    decreases n,
{
    if n > 0 {
        positions_below(v, n - 1);
        let s = opened_first(v, n - 1);
        placing_ranks(v, s, (n - 1) as usize);
        assert forall|k: int| 0 <= k < opened_first(v, n).len() implies (#[trigger] opened_first(
            v,
            n,
        )[k]) < n by {
            let x = opened_first(v, n)[k];
            assert(placed(v, s, (n - 1) as usize)[k] == x);
            if x != n - 1 {
                let m = choose|m: int| 0 <= m < s.len() && s[m] == x;
                assert(s[m] < n - 1);
            }
        }
    }
}

} // verus!
