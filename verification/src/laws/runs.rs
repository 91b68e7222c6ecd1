//! Runs without a screen: single messages and workflows.

use vstd::prelude::*;
use crate::digits;
use crate::json::JsonView;
use crate::laws::results::{holds, says};
use crate::laws::texts;
use crate::laws::texts::lacks;
use crate::pulse;
use crate::pulse::{EventView, ItemView};
use crate::sarif::FindingView;
use crate::send;
use crate::send::{CallStatus, CallView, NextView, RunStatus, SendEventView, SendView};
use crate::severity;
use crate::text;
use crate::workflow;
use crate::workflow::{TaskDef, VarStepView, WfEvent};

verus! {

broadcast use vstd::seq::group_seq_axioms;

// ---- one message --------------------------------------------------------------------------

proof fn words_of_items()
    ensures
        "thinking"@ != "token"@,
        "tool_start"@ != "token"@,
        "tool_start"@ != "thinking"@,
        "tool_output"@ != "token"@,
        "tool_output"@ != "thinking"@,
        "tool_output"@ != "tool_start"@,
        "tool_failed"@ != "token"@,
        "tool_failed"@ != "thinking"@,
        "tool_failed"@ != "tool_start"@,
        "tool_failed"@ != "tool_output"@,
        "note"@ != "token"@,
        "note"@ != "thinking"@,
        "note"@ != "tool_start"@,
        "note"@ != "tool_output"@,
        "note"@ != "tool_failed"@,
{
    reveal_strlit("token");
    reveal_strlit("thinking");
    reveal_strlit("tool_start");
    reveal_strlit("tool_output");
    reveal_strlit("tool_failed");
    reveal_strlit("note");
    assert("token"@.len() == 5 && "thinking"@.len() == 8 && "tool_start"@.len() == 10);
    assert("tool_output"@.len() == 11 && "tool_output"@[5] == 'o');
    assert("tool_failed"@.len() == 11 && "tool_failed"@[5] == 'f');
    assert("note"@.len() == 4);
}

/// What the agent says is printed as it comes, or kept for the report where one is
/// asked for.
pub proof fn answers_are_printed_or_kept(s: SendView, i: ItemView, t: Seq<char>)
    requires
        i.kind == "token"@,
        i.text == Some(t),
    ensures
        !s.json_mode ==> {
            let r = send::send_stepped(s, SendEventView::Event(EventView::Stream(i)));
            r.1.out == t && r.1.next == NextView::Continue && r.0.said == s.said
                && r.0.needs_newline == !text::ends_with(t, "\n"@)
        },
        s.json_mode ==> {
            let r = send::send_stepped(s, SendEventView::Event(EventView::Stream(i)));
            r.1.out.len() == 0 && r.0.said == s.said + t && r.1.next == NextView::Continue
        },
{
}

/// What else happens is printed in lines of its own: thoughts, calls and what they
/// gave, failures and remarks.
pub proof fn happenings_are_printed_in_lines(s: SendView, i: ItemView, n: Seq<char>, d: Seq<char>)
    requires
        !s.json_mode,
        !s.needs_newline,
        i.tool_name == Some(n),
        i.detail == Some(d),
        i.text == Some(d),
        d.len() > 0,
    ensures
        i.kind == "thinking"@ ==> send::send_stepped(
            s,
            SendEventView::Event(EventView::Stream(i)),
        ).1.out == "💭 "@ + d + "\n"@,
        i.kind == "tool_start"@ ==> send::send_stepped(
            s,
            SendEventView::Event(EventView::Stream(i)),
        ).1.out == "▶ "@ + n + "("@ + d + ")"@ + "\n"@,
        i.kind == "tool_output"@ ==> send::send_stepped(
            s,
            SendEventView::Event(EventView::Stream(i)),
        ).1.out == "◀ "@ + n + ": "@ + d + "\n"@,
        i.kind == "tool_failed"@ ==> send::send_stepped(
            s,
            SendEventView::Event(EventView::Stream(i)),
        ).1.out == "✗ "@ + n + ": "@ + d + "\n"@,
        i.kind == "note"@ ==> send::send_stepped(
            s,
            SendEventView::Event(EventView::Stream(i)),
        ).1.out == "ℹ "@ + d + "\n"@,
{
    words_of_items();
    let e = Seq::<char>::empty();
    assert(e + ("💭 "@ + d) =~= "💭 "@ + d);
    assert(e + ("▶ "@ + n + "("@ + d + ")"@) =~= "▶ "@ + n + "("@ + d + ")"@);
    assert(e + ("◀ "@ + n + ": "@ + d) =~= "◀ "@ + n + ": "@ + d);
    assert(e + ("✗ "@ + n + ": "@ + d) =~= "✗ "@ + n + ": "@ + d);
    assert(e + ("ℹ "@ + d) =~= "ℹ "@ + d);
}

/// A line begins on a line of its own: where the text before it did not end one, a
/// line feed comes first.
pub proof fn lines_begin_on_their_own(s: SendView, i: ItemView, d: Seq<char>)
    requires
        !s.json_mode,
        s.needs_newline,
        i.kind == "thinking"@,
        i.text == Some(d),
    ensures
        ({
            let r = send::send_stepped(s, SendEventView::Event(EventView::Stream(i)));
            r.1.out == "\n"@ + ("💭 "@ + d) + "\n"@ && !r.0.needs_newline
        }),
{
    words_of_items();
}

/// For the report each call is kept with its name and what it was called with, and
/// with how it ended: the last call of that name that still runs is the one.
pub proof fn calls_are_kept_for_the_report(s: SendView, i: ItemView, n: Seq<char>, d: Seq<char>)
    requires
        s.json_mode,
        i.tool_name == Some(n),
        i.detail == Some(d),
    ensures
        i.kind == "tool_start"@ ==> send::send_stepped(
            s,
            SendEventView::Event(EventView::Stream(i)),
        ).0.tools == s.tools.push(
            CallView { name: n, detail: d, status: CallStatus::Running, note: Seq::empty() },
        ),
        i.kind == "tool_output"@ && s.tools.len() > 0 && s.tools.last().name == n
            && s.tools.last().status == CallStatus::Running ==> {
            let r = send::send_stepped(s, SendEventView::Event(EventView::Stream(i))).0.tools;
            &&& r.len() == s.tools.len()
            &&& r.drop_last() == s.tools.drop_last()
            &&& r.last().name == n
            &&& r.last().status == CallStatus::Done
            &&& r.last().note == d
            &&& r.last().detail == s.tools.last().detail
        },
        i.kind == "tool_failed"@ && s.tools.len() > 0 && s.tools.last().name == n
            && s.tools.last().status == CallStatus::Running ==> {
            let r = send::send_stepped(s, SendEventView::Event(EventView::Stream(i))).0.tools;
            r.len() == s.tools.len() && r.last().status == CallStatus::Failed && r.last().note == d
        },
{
    words_of_items();
    if s.tools.len() > 0 {
        let a = s.tools.drop_last().push(
            CallView { status: CallStatus::Done, note: d, ..s.tools.last() },
        );
        assert(a.drop_last() =~= s.tools.drop_last());
    }
}

/// A message ends where its run ends or the connection closes; a run that takes
/// too long or fails ends it with an error.
pub proof fn messages_end_with_their_run(s: SendView, w: Seq<char>)
    ensures
        send::send_stepped(s, SendEventView::Closed).1.next == NextView::Done,
        send::send_stepped(s, SendEventView::Event(EventView::RunFinished(w))).1.next
            == NextView::Done,
        ({
            let r = send::send_stepped(s, SendEventView::TimedOut);
            &&& r.1.next == NextView::Fail("timed out after "@ + digits::dec(s.timeout as nat) + "s"@)
            &&& r.0.status == RunStatus::Timeout
            &&& r.0.error is Some
        }),
        ({
            let r = send::send_stepped(s, SendEventView::Event(EventView::Error(w)));
            &&& r.1.next == NextView::Fail("agent error: "@ + w)
            &&& r.0.status == RunStatus::Error
            &&& r.0.error == Some(w)
            &&& !s.json_mode ==> r.1.err == Some("error: "@ + w)
        }),
{
}

/// A run that asks for something is asked on in turn, or ends the message where
/// nobody can be asked.
pub proof fn questions_are_passed_on(
    s: SendView,
    id: Seq<char>,
    title: Seq<char>,
    message: Seq<char>,
    fields: Seq<pulse::FieldView>,
)
    ensures
        ({
            let r = send::send_stepped(
                s,
                SendEventView::Event(EventView::Interrupt { id, title, message, fields }),
            );
            &&& !s.non_interactive ==> r.1.next == (NextView::Ask { id, fields })
            &&& s.non_interactive ==> r.0.status == RunStatus::Interrupted && r.1.next is Fail
        }),
{
}

/// The report says how the run ended, what was said and which tools were called.
pub proof fn reports_say_how_it_went(s: SendView, t: Seq<char>, w: Seq<char>)
    ensures
        ({
            let r = send::send_report(s, t, Some(w));
            &&& says(r, "thread_id"@, t)
            &&& says(r, "workspace_id"@, w)
            &&& says(r, "text"@, s.said)
            &&& s.status == RunStatus::Success ==> says(r, "status"@, "success"@)
            &&& s.status == RunStatus::Timeout ==> says(r, "status"@, "timeout"@)
            &&& s.status == RunStatus::Error ==> says(r, "status"@, "error"@)
            &&& s.status == RunStatus::Interrupted ==> says(r, "status"@, "interrupted"@)
            &&& s.error is None ==> holds(r, "error"@, JsonView::Null)
            &&& r matches JsonView::Obj(e) && e.len() == 6 && e[4].0 == "tools"@ && (
            e[4].1 matches JsonView::Arr(v) && v.len() == s.tools.len())
        }),
        holds(send::send_report(s, t, None), "workspace_id"@, JsonView::Null),
{
    match send::send_report(s, t, Some(w)) {
        JsonView::Obj(e) => {
            assert(e[0] == ("thread_id"@, JsonView::Str(t)));
            assert(e[1] == ("workspace_id"@, JsonView::Str(w)));
            assert(e[2] == ("status"@, JsonView::Str(send::status_word(s.status))));
            assert(e[3] == ("text"@, JsonView::Str(s.said)));
            assert(e[5].0 == "error"@);
            assert(e.contains(e[5]));
        },
        _ => {},
    }
    match send::send_report(s, t, None) {
        JsonView::Obj(e) => {
            assert(e[1] == ("workspace_id"@, JsonView::Null));
        },
        _ => {},
    }
}

/// A called tool is reported with its name, how it fares, what it was called with,
/// and what came of it.
pub proof fn reported_calls_say_what_came(c: CallView)
    ensures
        ({
            let r = send::call_value(c);
            &&& says(r, "name"@, c.name)
            &&& says(r, "detail"@, c.detail)
            &&& c.status == CallStatus::Done ==> says(r, "status"@, "done"@) && says(
                r,
                "output"@,
                c.note,
            )
            &&& c.status == CallStatus::Failed ==> says(r, "status"@, "failed"@) && says(
                r,
                "error"@,
                c.note,
            )
            &&& c.status == CallStatus::Running ==> says(r, "status"@, "running"@)
        }),
{
    match send::call_value(c) {
        JsonView::Obj(e) => {
            assert(e[0] == ("name"@, JsonView::Str(c.name)));
            assert(e.contains(e[1]));
            assert(e[2] == ("detail"@, JsonView::Str(c.detail)));
            if c.status != CallStatus::Running {
                assert(e.contains(e[3]));
            }
        },
        _ => {},
    }
}

/// The findings of a workspace fail the build where one is at least as severe as
/// the bar; each of those is listed with its severity and title.
pub proof fn severe_findings_fail_the_build(v: Seq<FindingView>, bar: Seq<char>, k: int)
    ensures
        0 <= k < v.len() && severity::level(v[k].severity_label) >= severity::level(bar) ==> (
        send::findings_gate(v, bar) matches Some(p) && text::contains(
            p.0,
            "  ["@ + v[k].severity_label + "] "@ + v[k].title + "\n"@,
        )),
        (forall|i: int|
            0 <= i < v.len() ==> severity::level((#[trigger] v[i]).severity_label)
                < severity::level(bar)) ==> send::findings_gate(v, bar) is None,
{
    if 0 <= k < v.len() && severity::level(v[k].severity_label) >= severity::level(bar) {
        counted_in(v, severity::level(bar), v.len() as int, k);
        listed_in(v, severity::level(bar), v.len() as int, k);
        let n = severity::blocking::<crate::api::Finding>(v, bar);
        let line = "  ["@ + v[k].severity_label + "] "@ + v[k].title + "\n"@;
        texts::longer_texts_hold_it(
            "findings: "@ + digits::dec(n) + " finding(s) at or above '"@ + bar + "' severity\n"@,
            send::gate_lines(v, severity::level(bar), v.len() as int),
            line,
        );
    }
    if forall|i: int|
        0 <= i < v.len() ==> severity::level((#[trigger] v[i]).severity_label) < severity::level(
            bar,
        ) {
        none_in(v, severity::level(bar), v.len() as int);
    }
}

proof fn counted_in(v: Seq<FindingView>, least: u8, n: int, k: int)
    requires
        0 <= k < n <= v.len(),
        severity::level(v[k].severity_label) >= least,
    ensures
        severity::count_from::<crate::api::Finding>(v, least, n) > 0,
    decreases n,
{
    if k < n - 1 {
        counted_in(v, least, n - 1, k);
    }
}

proof fn none_in(v: Seq<FindingView>, least: u8, n: int)
    requires
        0 <= n <= v.len(),
        forall|i: int| 0 <= i < v.len() ==> severity::level((#[trigger] v[i]).severity_label) < least,
    ensures
        severity::count_from::<crate::api::Finding>(v, least, n) == 0,
    decreases n,
{
    if n > 0 {
        none_in(v, least, n - 1);
        assert(severity::level(v[n - 1].severity_label) < least);
    }
}

proof fn listed_in(v: Seq<FindingView>, least: u8, n: int, k: int)
    requires
        0 <= k < n <= v.len(),
        severity::level(v[k].severity_label) >= least,
    ensures
        text::contains(
            send::gate_lines(v, least, n),
            "  ["@ + v[k].severity_label + "] "@ + v[k].title + "\n"@,
        ),
    decreases n,
{
    let line = "  ["@ + v[k].severity_label + "] "@ + v[k].title + "\n"@;
    let last = if severity::level(v[n - 1].severity_label) >= least {
        "  ["@ + v[n - 1].severity_label + "] "@ + v[n - 1].title + "\n"@
    } else {
        Seq::empty()
    };
    if k < n - 1 {
        listed_in(v, least, n - 1, k);
    } else {
        texts::texts_hold_themselves(line);
    }
    texts::longer_texts_hold_it(send::gate_lines(v, least, n - 1), last, line);
}

// ---- workflows ------------------------------------------------------------------------------

/// A setting is a name and a value with an equals sign between; what follows the
/// first sign is the value.
pub proof fn settings_are_names_and_values(k: Seq<char>, v: Seq<char>)
    requires
        lacks(k, '='),
    ensures
        workflow::setting_of(k + seq!['='] + v) == Some((k, v)),
        workflow::setting_of(k) is None,
{
    texts::pieces_stand_between_separators(k, '=', v);
    let t = k + seq!['='] + v;
    assert(t.take(k.len() as int) =~= k);
    assert(t.skip(k.len() as int + 1) =~= v);
}

/// Settings are taken in their order over what was there, and what is not set
/// stays.
pub proof fn settings_are_taken_in_order(
    m: Map<Seq<char>, Seq<char>>,
    a: Seq<Seq<char>>,
    k: Seq<char>,
    v: Seq<char>,
)
    requires
        lacks(k, '='),
    ensures
        workflow::with_settings(m, Seq::empty()) == m,
        workflow::with_settings(m, a.push(k + seq!['='] + v)) == workflow::with_settings(
            m,
            a,
        ).insert(k, v),
        workflow::with_settings(m, a.push(k)) == workflow::with_settings(m, a),
{
    settings_are_names_and_values(k, v);
    assert(a.push(k + seq!['='] + v).drop_last() =~= a);
    assert(a.push(k).drop_last() =~= a);
}

/// A variable that is given is told, one that is not is asked for with its default,
/// and hidden where its name is that of a secret.
pub proof fn variables_are_told_or_asked_for(
    n: Seq<char>,
    d: Seq<char>,
    have: Map<Seq<char>, String>,
)
    ensures
        have.dom().contains(n) ==> workflow::var_step(n, d, have) == VarStepView::Given(
            "  "@ + n + " = "@ + have[n]@,
        ),
        !have.dom().contains(n) ==> (workflow::var_step(n, d, have) matches VarStepView::Ask {
            name,
            default,
            ..
        } && name == n && default == d),
        !have.dom().contains(n) && (text::contains(text::lowercase(n), "key"@) || text::contains(
            text::lowercase(n),
            "token"@,
        ) || text::contains(text::lowercase(n), "secret"@) || text::contains(
            text::lowercase(n),
            "password"@,
        )) ==> (workflow::var_step(n, d, have) matches VarStepView::Ask { secret, .. } && secret),
{
}

/// A task is sent with its name, a title made of it, and its instructions.
pub proof fn tasks_are_sent_with_their_instructions(t: TaskDef)
    ensures
        ({
            let r = workflow::task_value(t);
            &&& says(r, "key"@, t.name@)
            &&& says(r, "title"@, workflow::title_of(t.name@))
            &&& says(r, "instructions"@, t.prompt@)
            &&& says(r, "agentType"@, "general"@)
            &&& says(r, "taskType"@, "agent"@)
        }),
{
    match workflow::task_value(t) {
        JsonView::Obj(e) => {
            assert(e[0] == ("key"@, JsonView::Str(t.name@)));
            assert(e[1] == ("title"@, JsonView::Str(workflow::title_of(t.name@))));
            assert(e[2] == ("instructions"@, JsonView::Str(t.prompt@)));
            assert(e[3] == ("agentType"@, JsonView::Str("general"@)));
            assert(e[4] == ("taskType"@, JsonView::Str("agent"@)));
        },
        _ => {},
    }
}

/// A phase is sent with its name, its place and its tasks, in their order.
pub proof fn phases_are_sent_with_their_tasks(p: workflow::PhaseDef, i: nat, k: int)
    ensures
        ({
            let r = workflow::phase_value(p, i);
            &&& says(r, "key"@, p.name@)
            &&& says(r, "name"@, workflow::title_of(p.name@))
            &&& holds(r, "order"@, JsonView::Num(digits::dec(i)))
            &&& holds(r, "tasks"@, workflow::tasks_value(p.tasks@))
        }),
        workflow::tasks_value(p.tasks@) matches JsonView::Arr(v) && v.len() == p.tasks@.len() && (0
            <= k < p.tasks@.len() ==> v[k] == workflow::task_value(p.tasks@[k])),
{
    match workflow::phase_value(p, i) {
        JsonView::Obj(e) => {
            assert(e[0] == ("key"@, JsonView::Str(p.name@)));
            assert(e[1] == ("name"@, JsonView::Str(workflow::title_of(p.name@))));
            assert(e[2] == ("order"@, JsonView::Num(digits::dec(i))));
            assert(e[5] == ("tasks"@, workflow::tasks_value(p.tasks@)));
        },
        _ => {},
    }
}

/// A word of a title begins with a capital.
pub proof fn titles_begin_with_a_capital(c: char, rest: Seq<char>)
    requires
        'a' <= c <= 'z',
    ensures
        ({
            let r = workflow::title_word(seq![c] + rest);
            &&& r.len() == rest.len() + 1
            &&& r[0] as u32 == c as u32 - 32
            &&& r.skip(1) == rest
        }),
{
    let w = seq![c] + rest;
    let a = w.take(1);
    assert(a =~= seq![c]);
    assert(vstd::utf8::is_ascii_chars(a));
    assert(w.skip(1) =~= rest);
    let r = workflow::title_word(w);
    assert(r.skip(1) =~= rest);
}

/// What happens in a workflow is printed in lines.
pub proof fn workflows_are_printed(e: WfEvent, resumed: bool)
    ensures
        e matches WfEvent::Log(m) ==> workflow::printed(resumed, e) == m@ + "\n"@,
        e matches WfEvent::PhaseStarted { phase } ==> workflow::printed(resumed, e) == "▶ phase: "@
            + phase@ + "\n"@,
        e matches WfEvent::TaskDone { task } ==> workflow::printed(resumed, e) == "✔ "@ + task@
            + "\n"@,
        e matches WfEvent::TaskFailed { task, reason } ==> workflow::printed(resumed, e) == "✗ "@
            + task@ + ": "@ + reason@ + "\n"@,
        e matches WfEvent::TaskSkipped { task } ==> workflow::printed(resumed, e) == "↷ "@ + task@
            + " (skipped)"@ + "\n"@,
        e is WorkflowDone ==> workflow::printed(resumed, e) == "✔ workflow complete"@ + "\n"@,
        e matches WfEvent::WorkflowFailed { reason } ==> workflow::printed(resumed, e)
            == "✗ workflow failed: "@ + reason@ + "\n"@,
        e matches WfEvent::WorkspaceReady { id, name } ==> workflow::printed(resumed, e)
            == "workspace: "@ + name@ + " ["@ + id@ + "]"@ + "\n"@,
{
}

/// A workflow fails where it says so, or where a task failed in a run that was not
/// resumed.
pub proof fn workflows_fail_with_their_tasks(r: workflow::RunView, e: WfEvent)
    requires
        !r.failed && !r.task_failed,
    ensures
        e is WorkflowFailed ==> workflow::failure(workflow::after_event(r, e)) is Some,
        e is TaskFailed && !r.resumed ==> workflow::failure(workflow::after_event(r, e)) is Some,
        e is TaskFailed && r.resumed ==> workflow::failure(workflow::after_event(r, e)) is None,
        e is TaskDone || e is WorkflowDone || e is Log ==> workflow::failure(
            workflow::after_event(r, e),
        ) is None,
        e matches WfEvent::WorkspaceReady { id, .. } ==> workflow::after_event(r, e).workspace
            == Some(id@),
{
}

/// Where a report is wanted nothing is printed on the way: neither thoughts, nor
/// calls, nor errors.
pub proof fn reports_are_printed_alone(s: SendView, i: ItemView, w: Seq<char>)
    requires
        s.json_mode,
    ensures
        send::send_stepped(s, SendEventView::Event(EventView::Stream(i))).1.out.len() == 0,
        send::send_stepped(s, SendEventView::Event(EventView::Stream(i))).1.err is None,
        send::send_stepped(s, SendEventView::Event(EventView::Error(w))).1.err is None,
        send::send_stepped(s, SendEventView::TimedOut).1.err is None,
{
}

/// Otherwise a failure is told, on a line of its own.
pub proof fn failures_are_told(s: SendView, w: Seq<char>)
    requires
        !s.json_mode,
    ensures
        send::send_stepped(s, SendEventView::Event(EventView::Error(w))).1.err is Some,
        send::send_stepped(s, SendEventView::TimedOut).1.err is Some,
        s.needs_newline ==> send::send_stepped(s, SendEventView::TimedOut).1.out == "\n"@,
        !s.needs_newline ==> send::send_stepped(s, SendEventView::TimedOut).1.out.len() == 0,
        !send::send_stepped(s, SendEventView::TimedOut).0.needs_newline,
{
}

} // verus!
