//! Lists and papers: what is offered, what is chosen, and what is written down of
//! a thread.

use vstd::prelude::*;
use crate::api::{Thread, Workspace};
use crate::app::AppView;
use crate::blocks::{OverlayItemView, OverlayKind};
use crate::chat::{DeferView, Key, KeyPress};
use crate::choices;
use crate::choices::{WayEvent, WayStepView, WayView, Words};
use crate::digits;
use crate::errands;
use crate::errands::{ErrandView, Reason};
use crate::json;
use crate::json::JsonView;
use crate::laws::replay;
use crate::laws::texts;
use crate::panels;
use crate::picker;
use crate::picker::{Nav, PickerView, PromptedView};
use crate::pieces;
use crate::prompts;
use crate::text;
use crate::transcript;
use crate::transcript::Page;

verus! {

broadcast use vstd::seq::group_seq_axioms;

// ---- errands ---------------------------------------------------------------------------------

/// What was asked for is what is fetched; what belongs to a workspace is fetched
/// of the bound one, and without one a workspace is asked for first.
pub proof fn errands_fetch_what_was_asked_for(s: AppView, w: Seq<char>)
    ensures
        errands::begun(s, DeferView::Threads, Some(w)).1 == ErrandView::Threads,
        errands::begun(s, DeferView::Workspaces, Some(w)).1 == ErrandView::Workspaces(
            Reason::Asked,
        ),
        errands::begun(s, DeferView::Findings, Some(w)).1 == ErrandView::Findings(w),
        errands::begun(s, DeferView::Findings, None).1 == ErrandView::Workspaces(Reason::Findings),
        errands::begun(s, DeferView::Approvals, Some(w)).1 == ErrandView::Approvals(w),
        errands::begun(s, DeferView::Approvals, None).1 == ErrandView::Workspaces(
            Reason::Approvals,
        ),
        errands::begun(s, DeferView::Files, None).1 == ErrandView::Files,
        errands::begun(s, DeferView::OpenFiles, None).1 == ErrandView::OpenFiles,
        w != "__new_ws__"@ ==> errands::begun(s, DeferView::BindWorkspace(w), None).1
            == ErrandView::Bind(w),
        errands::begun(s, DeferView::BindWorkspace("__new_ws__"@), None).1
            == ErrandView::NewWorkspace,
        w != "__new__"@ ==> errands::begun(s, DeferView::SwitchThread(w), None).1
            == ErrandView::Open(w),
        errands::begun(s, DeferView::SwitchThread("__new__"@), None).1 == ErrandView::NewThread,
{
}

/// A list is opened at its first row, with nothing typed and no row open.
pub proof fn lists_open_at_their_first_row(
    s: AppView,
    kind: OverlayKind,
    title: Seq<char>,
    items: Seq<OverlayItemView>,
)
    ensures
        errands::shown(s, kind, title, items).overlay matches Some(o) && o.kind == kind && o.title
            == title && o.items == items && o.sel == 0 && !o.detail_open && o.filter.len() == 0,
        errands::shown(s, kind, title, items).blocks == s.blocks,
{
}

/// The list of threads begins with a new one, and then has the threads in their
/// order, each under its title.
pub proof fn threads_are_listed(
    s: AppView,
    title: Seq<char>,
    ts: Seq<Thread>,
    current: Seq<char>,
    k: int,
)
    requires
        0 <= k < ts.len(),
        ts[k].title@.len() > 0,
    ensures
        errands::threads_shown(s, title, ts, current, true).overlay matches Some(o) && o.items.len()
            == ts.len() + 1 && o.items[0].action == Some("__new__"@) && o.items[k + 1].action
            == Some(ts[k].id@) && text::starts_with(o.items[k + 1].label, ts[k].title@),
{
    let l = panels::thread_item(ts[k], current).label;
    let t = ts[k].title@;
    let dot = if ts[k].id@ == current {
        " ●"@
    } else {
        Seq::<char>::empty()
    };
    let rest = dot + "  · "@ + ts[k].status@ + "  "@ + text::truncated(ts[k].last_message@, 50);
    assert(l =~= t + rest);
    texts::wholes_hold_their_parts(Seq::empty(), t, rest);
}

/// The models are listed by their names; the one in use is marked, and each is
/// chosen by its number.
pub proof fn models_are_listed(t: Seq<(i64, Seq<char>)>, current: Option<i64>, k: int)
    requires
        0 <= k < t.len(),
    ensures
        ({
            let v = choices::model_list(t, current);
            &&& v.len() == t.len()
            &&& v[k].action == Some(digits::dec_int(t[k].0 as int))
            &&& current == Some(t[k].0) ==> v[k].label == t[k].1 + " ●"@
            &&& current is None && t[k].0 == 0 ==> v[k].label == t[k].1 + " ●"@
            &&& current != Some(t[k].0) && t[k].0 != 0 ==> v[k].label == t[k].1
        }),
{
    assert(t[k].1 + Seq::<char>::empty() =~= t[k].1);
}

/// A workspace that is bound is told, by its name where it is known.
pub proof fn bound_workspaces_are_told(s: AppView, id: Seq<char>, ws: Seq<Workspace>, k: int)
    requires
        s.stream is None,
        0 <= k < ws.len(),
        ws[k].id@ == id,
        ws[k].name@.len() > 0,
        forall|j: int| 0 <= j < k ==> (#[trigger] ws[j]).id@ != id,
    ensures
        ({
            let r = errands::bound(s, id, Some(ws));
            &&& r.has_workspace
            &&& r.workspace_name == Some(ws[k].name@)
            &&& r.blocks.len() == s.blocks.len() + 1
        }),
        errands::bound(s, id, None).has_workspace,
{
    workspace_found(ws, id, k, 0);
}

proof fn workspace_found(ws: Seq<Workspace>, id: Seq<char>, k: int, from: int)
    requires
        0 <= from <= k < ws.len(),
        ws[k].id@ == id,
        forall|j: int| 0 <= j < k ==> (#[trigger] ws[j]).id@ != id,
    ensures
        choices::workspace_at(ws, id, from) == Some(ws[k]),
    decreases k - from,
{
    if from < k {
        workspace_found(ws, id, k, from + 1);
    }
}

/// Each file that was sent is told of, whether it arrived or not, and how many
/// arrived.
pub proof fn uploads_are_told(s: AppView, v: Seq<Result<String, String>>, x: Result<String, String>, now: u64)
    requires
        errands::uploads_told(s, v, now).stream is None,
    ensures
        errands::arrived(v.push(x)) == errands::arrived(v) + (if x is Ok {
            1nat
        } else {
            0
        }),
        errands::uploads_told(s, v.push(x), now).blocks.len() == errands::uploads_told(
            s,
            v,
            now,
        ).blocks.len() + 1,
        errands::arrived(Seq::empty()) == 0,
{
    assert(v.push(x).drop_last() =~= v);
}

// ---- dragged files --------------------------------------------------------------------------------

/// Words stand between blanks, unless they are in quotes or the blank is escaped.
pub proof fn words_are_kept_together_by_quotes(w: Words, c: char)
    requires
        !w.escaped,
    ensures
        c == ' ' && !w.single && !w.double && w.word.len() > 0 ==> choices::word_step(w, c) == (Words {
            done: w.done.push(w.word),
            word: Seq::empty(),
            ..w
        }),
        c == ' ' && (w.single || w.double) ==> choices::word_step(w, c) == (Words {
            word: w.word.push(' '),
            ..w
        }),
        c == '\\' && !w.single ==> choices::word_step(choices::word_step(w, c), ' ').word
            == w.word.push(' '),
        c == '\'' && !w.double ==> choices::word_step(w, c).single == !w.single
            && choices::word_step(w, c).word == w.word,
        c == '"' && !w.single ==> choices::word_step(w, c).double == !w.double
            && choices::word_step(w, c).word == w.word,
        texts::is_plain_char(c) ==> choices::word_step(w, c).word == w.word.push(c),
{
}

/// What was dragged in is files where every word is a path.
pub proof fn dragged_words_are_paths(s: Seq<char>)
    ensures
        ({
            let w = choices::shell_words(pieces::trim(s));
            let all = forall|k: int|
                0 <= k < w.len() ==> (#[trigger] w[k]).contains('/') || w[k].contains('\\') || (
                w[k].len() > 0 && w[k][0] == '~');
            &&& w.len() > 0 && all ==> choices::dragged(s) == Some(w)
            &&& w.len() == 0 || !all ==> choices::dragged(s) is None
        }),
{
    let w = choices::shell_words(pieces::trim(s));
    if forall|k: int| 0 <= k < w.len() ==> choices::pathy(#[trigger] w[k]) {
        assert forall|k: int| 0 <= k < w.len() implies (#[trigger] w[k]).contains('/')
            || w[k].contains('\\') || (w[k].len() > 0 && w[k][0] == '~') by {
            assert(choices::pathy(w[k]));
        }
    }
}

// ---- the way into a session ----------------------------------------------------------------------

/// A session opens on the thread that was given; otherwise a thread is chosen in
/// the given workspace, or a workspace first.
pub proof fn sessions_open_where_told(t: Seq<char>)
    ensures
        choices::way_start(Some(t), false, false) == (WayStepView::Open { thread: t, message: None }),
        choices::way_start(Some(t), true, true) == WayStepView::PickThread,
        choices::way_start(None, true, false) == WayStepView::PickThread,
        choices::way_start(None, false, false) == WayStepView::PickWorkspace,
        choices::way_start(Some(t), false, true) == WayStepView::PickWorkspace,
{
}

/// Each choice leads on: a workspace to its threads, a thread into the session, a
/// step back to the workspaces unless the workspace was given, and leaving out.
pub proof fn choices_lead_on(w: WayView, t: String, id: Option<String>)
    ensures
        choices::way_on(w, WayEvent::Workspace(id)).1 == WayStepView::PickThread,
        choices::way_on(w, WayEvent::Workspace(id)).0.workspace == text::opt_view(id),
        choices::way_on(w, WayEvent::Thread(t)).1 == (WayStepView::Open {
            thread: t@,
            message: None,
        }),
        w.given ==> choices::way_on(w, WayEvent::Back).1 == WayStepView::Leave,
        !w.given ==> choices::way_on(w, WayEvent::Back).1 == WayStepView::PickWorkspace,
        choices::way_on(w, WayEvent::Quit).1 == WayStepView::Leave,
{
}

/// The rows of the list of workspaces: a new one, all threads, and then the
/// workspaces; Tab on a workspace with a workflow watches it.
pub proof fn workspace_rows_lead_on(i: usize, flows: Seq<bool>)
    requires
        i + 2 <= usize::MAX,
        i < flows.len(),
    ensures
        choices::workspace_nav(Nav::Item(0), flows) == choices::WorkspaceNav::Create,
        choices::workspace_nav(Nav::Item(1), flows) == choices::WorkspaceNav::Unscoped,
        choices::workspace_nav(Nav::Item((i + 2) as usize), flows) == choices::WorkspaceNav::Pick(i),
        flows[i as int] ==> choices::workspace_nav(Nav::Shortcut((i + 2) as usize), flows)
            == choices::WorkspaceNav::Watch(i),
        !flows[i as int] ==> choices::workspace_nav(Nav::Shortcut((i + 2) as usize), flows)
            == choices::WorkspaceNav::Again,
        choices::workspace_nav(Nav::Quit, flows) == choices::WorkspaceNav::Quit,
        choices::workspace_nav(Nav::Back, flows) == choices::WorkspaceNav::Quit,
{
}

// ---- the picker -------------------------------------------------------------------------------------

/// The rows of a picker that are shown are those that hold what was typed, whatever
/// its case.
pub proof fn pickers_keep_matching_rows(p: PickerView, n: int, k: int)
    requires
        0 <= k < n <= p.items.len() <= usize::MAX,
    ensures
        picker::kept_among(p, n).contains(k as usize) <==> text::contains(
            text::lowercase(p.items[k]),
            text::lowercase(p.filter),
        ),
    decreases n,
{
    rows_below(p, n - 1);
    let before = picker::kept_among(p, n - 1);
    let all = picker::kept_among(p, n);
    if k < n - 1 {
        pickers_keep_matching_rows(p, n - 1, k);
        if before.contains(k as usize) {
            let m = choose|m: int| 0 <= m < before.len() && before[m] == k as usize;
            assert(all[m] == k as usize);
        }
        if all.contains(k as usize) {
            let m = choose|m: int| 0 <= m < all.len() && all[m] == k as usize;
            if m < before.len() {
                assert(before[m] == k as usize);
            }
        }
    } else {
        if picker::keeps(p, k) {
            assert(all[before.len() as int] == k as usize);
        }
        if all.contains(k as usize) {
            let m = choose|m: int| 0 <= m < all.len() && all[m] == k as usize;
            if m < before.len() {
                assert(before[m] < n - 1);
            }
        }
    }
}

proof fn rows_below(p: PickerView, n: int)
    requires
        n <= p.items.len() <= usize::MAX,
    ensures
        forall|m: int|
            0 <= m < picker::kept_among(p, n).len() ==> (#[trigger] picker::kept_among(p, n)[m]) < n,
    decreases n,
{
    if n > 0 {
        rows_below(p, n - 1);
        let before = picker::kept_among(p, n - 1);
        let all = picker::kept_among(p, n);
        assert forall|m: int| 0 <= m < all.len() implies (#[trigger] all[m]) < n by {
            if m < before.len() {
                assert(before[m] < n - 1);
                assert(all[m] == before[m]);
            }
        }
    }
}

pub open spec fn plain_key(k: Key) -> KeyPress {
    KeyPress { key: k, ctrl: false, alt_or_shift: false }
}

/// The keys of a picker: letters search, Enter and the right arrow take the row
/// under the cursor, Escape and the left arrow go back, Ctrl-C leaves.
pub proof fn picker_keys_do_their_work(p: PickerView, c: char, i: usize)
    ensures
        picker::key_taken(p, plain_key(Key::Char(c))) == (
            PickerView { filter: p.filter.push(c), sel: 0, ..p },
            None::<Nav>,
        ),
        picker::key_taken(p, KeyPress { key: Key::Char('c'), ctrl: true, alt_or_shift: false }).1
            == Some(Nav::Quit),
        picker::key_taken(p, plain_key(Key::Esc)) == (p, Some(Nav::Back)),
        picker::key_taken(p, plain_key(Key::Left)) == (p, Some(Nav::Back)),
        picker::under_cursor(p) == Some(i) ==> picker::key_taken(p, plain_key(Key::Enter)) == (
            p,
            Some(Nav::Item(i)),
        ) && picker::key_taken(p, plain_key(Key::Right)) == (p, Some(Nav::Item(i)))
            && picker::key_taken(p, plain_key(Key::Tab)) == (p, Some(Nav::Shortcut(i))),
        picker::under_cursor(p) is None ==> picker::key_taken(p, plain_key(Key::Enter)) == (
            p,
            None::<Nav>,
        ),
        p.filter.len() > 0 ==> picker::key_taken(p, plain_key(Key::Backspace)).0.filter
            == p.filter.drop_last(),
        picker::key_taken(p, plain_key(Key::Up)).0 == picker::moved(p, true),
        picker::key_taken(p, plain_key(Key::Down)).0 == picker::moved(p, false),
{
}

/// What is typed at a prompt is what is entered.
pub proof fn prompts_take_what_is_typed(t: Seq<char>, c: char)
    ensures
        picker::prompt_taken(t, plain_key(Key::Char(c))) == (t.push(c), PromptedView::Going),
        picker::prompt_taken(t, plain_key(Key::Enter)) == (t, PromptedView::Entered(t)),
        picker::prompt_taken(t, plain_key(Key::Esc)) == (t, PromptedView::Cancelled),
        picker::prompt_taken(t.push(c), plain_key(Key::Backspace)).0 == t,
        picker::prompt_taken(t, KeyPress { key: Key::Char('c'), ctrl: true, alt_or_shift: false }).1
            == PromptedView::Cancelled,
{
    assert(t.push(c).drop_last() =~= t);
}

// ---- transcripts ------------------------------------------------------------------------------------

/// A transcript has a section for each message: what the user asked, and what each
/// agent answered, under their names.
pub proof fn messages_are_written_down(
    p: Page,
    e: JsonView,
    pay: JsonView,
    t: Seq<char>,
    agent: Seq<char>,
    only: bool,
)
    requires
        json::field(pay, "text"@) == Some(JsonView::Str(t)),
        !pieces::is_blank(t),
    ensures
        replay::is_event(e, "message.created"@, pay) && json::field(e, "actor"@) == Some(
            JsonView::Str("user"@),
        ) ==> transcript::event_written(p, e, only).md == p.md + ("\n## "@ + "👤 User"@ + "\n\n"@
            + pieces::trim(t) + "\n"@),
        replay::is_event(e, "message.segment.completed"@, pay) && replay::speaks(e, agent)
            ==> transcript::event_written(p, e, only).md == p.md + ("\n## "@ + ("🤖 "@ + agent)
            + "\n\n"@ + pieces::trim(t) + "\n"@),
{
    reveal_strlit("message.created");
    reveal_strlit("message.segment.completed");
    assert("message.created"@.len() == 15);
    assert("message.segment.completed"@.len() == 25);
}

/// Where only messages are wanted, nothing else is written.
pub proof fn only_messages_are_written_where_wanted(p: Page, e: JsonView, pay: JsonView, kind: Seq<char>)
    requires
        replay::is_event(e, kind, pay),
        kind == "thinking.completed"@ || kind == "tool.start"@ || kind == "tool.output"@,
    ensures
        transcript::event_written(p, e, true) == p,
{
    reveal_strlit("message.created");
    reveal_strlit("message.segment.completed");
    reveal_strlit("thinking.completed");
    reveal_strlit("tool.start");
    reveal_strlit("tool.output");
    assert("message.created"@.len() == 15);
    assert("message.segment.completed"@.len() == 25);
    assert("thinking.completed"@.len() == 18);
    assert("tool.start"@.len() == 10);
    assert("tool.output"@.len() == 11);
}

/// The tools that were called are written below, and what they gave.
pub proof fn calls_are_written_down(p: Page, e: JsonView, pay: JsonView, t: Seq<char>)
    requires
        p.in_tools,
    ensures
        replay::is_event(e, "tool.failed"@, pay) && json::field(pay, "error"@) == Some(
            JsonView::Str(t),
        ) ==> transcript::event_written(p, e, false).md == p.md + ("    "@ + ("⎿ ✗ "@ + t)
            + "\n"@),
        replay::is_event(e, "tool.output"@, pay) && json::field(pay, "result"@) is None
            ==> transcript::event_written(p, e, false).md == p.md + ("    "@ + ("⎿ "@ + "(ok)"@)
            + "\n"@),
{
    reveal_strlit("message.created");
    reveal_strlit("message.segment.completed");
    reveal_strlit("thinking.completed");
    reveal_strlit("tool.start");
    reveal_strlit("tool.output");
    reveal_strlit("tool.failed");
    assert("message.created"@.len() == 15);
    assert("message.segment.completed"@.len() == 25);
    assert("thinking.completed"@.len() == 18);
    assert("tool.start"@.len() == 10);
    assert("tool.output"@.len() == 11 && "tool.output"@[5] == 'o');
    assert("tool.failed"@.len() == 11 && "tool.failed"@[5] == 'f');
}

/// Events are written in their order, and so are messages, each under its author.
pub proof fn transcripts_are_written_in_order(
    p: Page,
    v: Seq<JsonView>,
    e: JsonView,
    m: Seq<(Seq<char>, Seq<char>)>,
    t: Seq<char>,
    only: bool,
)
    requires
        !pieces::is_blank(t),
    ensures
        transcript::events_written(p, v.push(e), only) == transcript::event_written(
            transcript::events_written(p, v, only),
            e,
            only,
        ),
        transcript::events_written(p, Seq::empty(), only) == p,
        transcript::messages_written(p, m.push(("user"@, t))).md == transcript::messages_written(
            p,
            m,
        ).md + ("\n## "@ + "👤 User"@ + "\n\n"@ + pieces::trim(t) + "\n"@),
        transcript::author_text("agent"@) == "🤖 agent"@,
        transcript::author_text("orchestrator"@) == "🤖 Strobes AI Supervisor"@,
{
    assert(v.push(e).drop_last() =~= v);
    assert(m.push(("user"@, t)).drop_last() =~= m);
    reveal_strlit("user");
    reveal_strlit("agent");
    reveal_strlit("orchestrator");
    assert("user"@.len() == 4 && "agent"@.len() == 5 && "orchestrator"@.len() == 12);
}

/// A name for a file is made of the letters and digits of a title, in small
/// letters, with a dash for what stands between them.
pub proof fn names_are_made_of_titles(s: Seq<char>, c: char, d: char)
    requires
        transcript::slug_read(s).made.len() < 47,
        'A' <= c <= 'Z',
        'a' <= d <= 'z',
    ensures
        ({
            let m = transcript::slug_read(s);
            let n = transcript::slug_read(s.push(c));
            &&& !m.gap ==> n.made.len() == m.made.len() + 1 && n.made.last() as u32 == c as u32 + 32
            &&& m.gap && m.made.len() > 0 ==> n.made.len() == m.made.len() + 2
                && n.made[m.made.len() as int] == '-'
        }),
        ({
            let m = transcript::slug_read(s);
            transcript::slug_read(s.push(d)).made.last() == d && transcript::slug_read(
                s.push(' '),
            ).made == m.made && transcript::slug_read(s.push(' ')).gap
        }),
        transcript::slug_of(Seq::empty()) == "untitled"@,
{
    assert(s.push(c).drop_last() =~= s);
    assert(s.push(d).drop_last() =~= s);
    assert(s.push(' ').drop_last() =~= s);
}

/// The next page of events is asked for after the last number of a full page.
pub proof fn pages_follow_each_other(v: Seq<JsonView>, e: JsonView, n: Seq<char>, k: int, after: i64)
    requires
        json::field(e, "seq"@) == Some(JsonView::Num(n)),
        digits::parse_i64(n) == Some(k),
        v.len() < 1000,
    ensures
        transcript::last_seq(v.push(e)) == Some(k),
        v.len() == 999 && k > after ==> transcript::next_after(v.push(e), after) == Some(k),
        v.len() < 999 ==> transcript::next_after(v.push(e), after) is None,
        transcript::next_after(Seq::empty(), after) is None,
{
    assert(v.push(e).drop_last() =~= v);
}

// ---- what the agent is asked ----------------------------------------------------------------------

/// The agent is told what to scan, and of a scan of packages or of infrastructure
/// what was found.
pub proof fn requests_name_their_target(t: Seq<char>, found: Seq<char>, os: Seq<char>)
    ensures
        text::contains(prompts::sast_request(t), t),
        text::contains(prompts::sca_request(t, found), t),
        text::contains(prompts::sca_request(t, found), found),
        text::contains(prompts::container_request(t, os, found), t),
        text::contains(prompts::container_request(t, os, found), os),
        text::contains(prompts::container_request(t, os, found), found),
        text::contains(prompts::iac_request(t, found), t),
        text::contains(prompts::iac_request(t, found), found),
{
    sast_asked(t);
    sca_asked(t, found);
    container_asked(t, os, found);
    iac_asked(t, found);
}

proof fn sast_asked(t: Seq<char>)
    ensures
        text::contains(prompts::sast_request(t), t),
{
    let x0 = prompts::SAST_1@;
    let x1 = x0 + t;
    let x2 = x1 + prompts::SAST_2@;
    let x3 = x2 + t;
    let x4 = x3 + prompts::SAST_3@;
    let x5 = x4 + t;
    let x6 = x5 + prompts::SAST_4@;
    assert(text::contains(x6, t)) by {
        texts::texts_hold_themselves(t);
        texts::longer_texts_hold_it(x0, t, t);
        texts::longer_texts_hold_it(x1, prompts::SAST_2@, t);
        texts::longer_texts_hold_it(x2, t, t);
        texts::longer_texts_hold_it(x3, prompts::SAST_3@, t);
        texts::longer_texts_hold_it(x4, t, t);
        texts::longer_texts_hold_it(x5, prompts::SAST_4@, t);
    }
}

proof fn sca_asked(t: Seq<char>, found: Seq<char>)
    ensures
        text::contains(prompts::sca_request(t, found), t),
        text::contains(prompts::sca_request(t, found), found),
{
    let x0 = prompts::SCA_1@;
    let x1 = x0 + t;
    let x2 = x1 + prompts::SCA_2@;
    let x3 = x2 + found;
    let x4 = x3 + prompts::SCA_3@;
    let x5 = x4 + t;
    let x6 = x5 + prompts::SCA_4@;
    assert(text::contains(x6, t)) by {
        texts::texts_hold_themselves(t);
        texts::longer_texts_hold_it(x0, t, t);
        texts::longer_texts_hold_it(x1, prompts::SCA_2@, t);
        texts::longer_texts_hold_it(x2, found, t);
        texts::longer_texts_hold_it(x3, prompts::SCA_3@, t);
        texts::longer_texts_hold_it(x4, t, t);
        texts::longer_texts_hold_it(x5, prompts::SCA_4@, t);
    }
    assert(text::contains(x6, found)) by {
        texts::texts_hold_themselves(found);
        texts::longer_texts_hold_it(x2, found, found);
        texts::longer_texts_hold_it(x3, prompts::SCA_3@, found);
        texts::longer_texts_hold_it(x4, t, found);
        texts::longer_texts_hold_it(x5, prompts::SCA_4@, found);
    }
}

proof fn container_asked(t: Seq<char>, os: Seq<char>, found: Seq<char>)
    ensures
        text::contains(prompts::container_request(t, os, found), t),
        text::contains(prompts::container_request(t, os, found), os),
        text::contains(prompts::container_request(t, os, found), found),
{
    let x0 = prompts::CONTAINER_1@;
    let x1 = x0 + t;
    let x2 = x1 + prompts::CONTAINER_2@;
    let x3 = x2 + os;
    let x4 = x3 + prompts::CONTAINER_3@;
    let x5 = x4 + found;
    let x6 = x5 + prompts::CONTAINER_4@;
    let x7 = x6 + t;
    let x8 = x7 + prompts::CONTAINER_5@;
    assert(text::contains(x8, t)) by {
        texts::texts_hold_themselves(t);
        texts::longer_texts_hold_it(x0, t, t);
        texts::longer_texts_hold_it(x1, prompts::CONTAINER_2@, t);
        texts::longer_texts_hold_it(x2, os, t);
        texts::longer_texts_hold_it(x3, prompts::CONTAINER_3@, t);
        texts::longer_texts_hold_it(x4, found, t);
        texts::longer_texts_hold_it(x5, prompts::CONTAINER_4@, t);
        texts::longer_texts_hold_it(x6, t, t);
        texts::longer_texts_hold_it(x7, prompts::CONTAINER_5@, t);
    }
    assert(text::contains(x8, os)) by {
        texts::texts_hold_themselves(os);
        texts::longer_texts_hold_it(x2, os, os);
        texts::longer_texts_hold_it(x3, prompts::CONTAINER_3@, os);
        texts::longer_texts_hold_it(x4, found, os);
        texts::longer_texts_hold_it(x5, prompts::CONTAINER_4@, os);
        texts::longer_texts_hold_it(x6, t, os);
        texts::longer_texts_hold_it(x7, prompts::CONTAINER_5@, os);
    }
    assert(text::contains(x8, found)) by {
        texts::texts_hold_themselves(found);
        texts::longer_texts_hold_it(x4, found, found);
        texts::longer_texts_hold_it(x5, prompts::CONTAINER_4@, found);
        texts::longer_texts_hold_it(x6, t, found);
        texts::longer_texts_hold_it(x7, prompts::CONTAINER_5@, found);
    }
}

proof fn iac_asked(t: Seq<char>, found: Seq<char>)
    ensures
        text::contains(prompts::iac_request(t, found), t),
        text::contains(prompts::iac_request(t, found), found),
{
    let x0 = prompts::IAC_1@;
    let x1 = x0 + t;
    let x2 = x1 + prompts::IAC_2@;
    let x3 = x2 + found;
    let x4 = x3 + prompts::IAC_3@;
    let x5 = x4 + t;
    let x6 = x5 + prompts::IAC_4@;
    assert(text::contains(x6, t)) by {
        texts::texts_hold_themselves(t);
        texts::longer_texts_hold_it(x0, t, t);
        texts::longer_texts_hold_it(x1, prompts::IAC_2@, t);
        texts::longer_texts_hold_it(x2, found, t);
        texts::longer_texts_hold_it(x3, prompts::IAC_3@, t);
        texts::longer_texts_hold_it(x4, t, t);
        texts::longer_texts_hold_it(x5, prompts::IAC_4@, t);
    }
    assert(text::contains(x6, found)) by {
        texts::texts_hold_themselves(found);
        texts::longer_texts_hold_it(x2, found, found);
        texts::longer_texts_hold_it(x3, prompts::IAC_3@, found);
        texts::longer_texts_hold_it(x4, t, found);
        texts::longer_texts_hold_it(x5, prompts::IAC_4@, found);
    }
}

} // verus!
