//! The running session: what each event of a run does to what is shown.

use vstd::prelude::*;
use crate::app;
use crate::app::AppView;
use crate::blocks::{AnswerView, BlockView, PendingView, StreamView, TaskStatus, TaskView, ToolStatus};
use crate::digits;
use crate::pieces;
use crate::pulse::{EventView, FieldView, ItemView};
use crate::style;
use crate::style::Color;
use crate::text;

verus! {

broadcast use vstd::seq::group_seq_axioms;

/// The last block is a line of its own with the text `t`, in the colour `c`, and
/// the blocks before it are those that were there.
pub open spec fn adds_line(s: AppView, r: AppView, t: Seq<char>, c: Color) -> bool {
    &&& r.blocks.len() == s.blocks.len() + 1
    &&& r.blocks.take(s.blocks.len() as int) == s.blocks
    &&& r.blocks.last() matches BlockView::Plain(l) && l.len() == 1 && l[0].content == t
        && l[0].style.fg == Some(c)
}

/// What an agent says piece by piece is put together: the pieces are kept in
/// their order until the agent is done, and then stand in one block under its
/// name.
pub proof fn pieces_of_an_answer_are_joined(
    s: AppView,
    i: ItemView,
    j: ItemView,
    a: Seq<char>,
    b: Seq<char>,
    agent: Seq<char>,
    now: u64,
)
    requires
        s.stream is None,
        i.kind == "token"@ && i.text == Some(a) && i.agent == Some(agent),
        j.kind == "token"@ && j.text == Some(b),
        !pieces::is_blank(a + b),
        s.blocks.len() == 0 || !(s.blocks.last() is Assistant),
    ensures
        ({
            let one = app::after_event(s, EventView::Stream(i), now);
            let two = app::after_event(one, EventView::Stream(j), now);
            let done = app::flushed(two);
            &&& one.blocks == s.blocks
            &&& one.stream == Some(StreamView { thinking: false, agent, buf: a })
            &&& two.stream == Some(StreamView { thinking: false, agent, buf: a + b })
            &&& two.blocks == s.blocks
            &&& done.stream is None
            &&& done.blocks == s.blocks.push(BlockView::Assistant { agent, md: a + b })
        }),
{
}

/// Thoughts that come piece by piece are put together in the same way, apart from
/// what is said: a piece of the other sort closes what was open.
pub proof fn pieces_of_a_thought_are_joined(
    s: AppView,
    i: ItemView,
    j: ItemView,
    k: ItemView,
    a: Seq<char>,
    b: Seq<char>,
    c: Seq<char>,
    now: u64,
)
    requires
        s.stream is None,
        i.kind == "thinking"@ && i.text == Some(a),
        j.kind == "thinking"@ && j.text == Some(b),
        k.kind == "token"@ && k.text == Some(c),
        !pieces::is_blank(a + b),
        s.blocks.len() == 0 || !(s.blocks.last() is Thinking),
    ensures
        ({
            let one = app::after_event(s, EventView::Stream(i), now);
            let two = app::after_event(one, EventView::Stream(j), now);
            let said = app::after_event(two, EventView::Stream(k), now);
            &&& two.blocks == s.blocks
            &&& two.stream matches Some(st) && st.thinking && st.buf == a + b
            &&& said.blocks == s.blocks.push(BlockView::Thinking(a + b))
            &&& said.stream matches Some(st) && !st.thinking && st.buf == c
        }),
{
    reveal_strlit("token");
    reveal_strlit("thinking");
    assert("token"@.len() == 5);
    assert("thinking"@.len() == 8);
}

proof fn kinds_of_items()
    ensures
        "tool_start"@ != "token"@,
        "tool_start"@ != "thinking"@,
        "tool_output"@ != "token"@,
        "tool_output"@ != "thinking"@,
        "tool_output"@ != "tool_start"@,
        "tool_failed"@ != "token"@,
        "tool_failed"@ != "thinking"@,
        "tool_failed"@ != "tool_start"@,
        "tool_failed"@ != "tool_output"@,
        "task"@ != "token"@,
        "task"@ != "thinking"@,
        "task"@ != "tool_start"@,
        "task"@ != "tool_output"@,
        "task"@ != "tool_failed"@,
        "approval"@ != "token"@,
        "approval"@ != "thinking"@,
        "approval"@ != "tool_start"@,
        "approval"@ != "tool_output"@,
        "approval"@ != "tool_failed"@,
        "approval"@ != "task"@,
        "note"@ != "token"@,
        "note"@ != "thinking"@,
        "note"@ != "tool_start"@,
        "note"@ != "tool_output"@,
        "note"@ != "tool_failed"@,
        "note"@ != "task"@,
        "note"@ != "approval"@,
{
    reveal_strlit("token");
    reveal_strlit("thinking");
    reveal_strlit("tool_start");
    reveal_strlit("tool_output");
    reveal_strlit("tool_failed");
    reveal_strlit("task");
    reveal_strlit("approval");
    reveal_strlit("note");
    assert("token"@.len() == 5);
    assert("thinking"@.len() == 8 && "thinking"@[0] == 't');
    assert("tool_start"@.len() == 10);
    assert("tool_output"@.len() == 11 && "tool_output"@[5] == 'o');
    assert("tool_failed"@.len() == 11 && "tool_failed"@[5] == 'f');
    assert("task"@.len() == 4 && "task"@[0] == 't');
    assert("approval"@.len() == 8 && "approval"@[0] == 'a');
    assert("note"@.len() == 4 && "note"@[0] == 'n');
}

/// A tool that is called is shown as running, with its name and what it is called
/// with.
pub proof fn called_tools_are_shown_running(s: AppView, i: ItemView, name: Seq<char>, d: Seq<char>, now: u64)
    requires
        s.stream is None,
        i.kind == "tool_start"@ && i.tool_name == Some(name) && i.detail == Some(d),
        s.last_tool != Some(name),
    ensures
        ({
            let r = app::after_event(s, EventView::Stream(i), now);
            &&& r.blocks == s.blocks.push(
                BlockView::Tool { name, detail: d, status: ToolStatus::Running },
            )
            &&& r.last_tool == Some(name)
            &&& r.follow
        }),
{
    kinds_of_items();
}

/// A call that is announced again, before anything else came, stays one block,
/// with what it is called with where that is told now.
pub proof fn repeated_calls_stay_one(s: AppView, i: ItemView, name: Seq<char>, d: Seq<char>, before: Seq<char>, now: u64)
    requires
        i.kind == "tool_start"@ && i.tool_name == Some(name) && i.detail == Some(d),
        s.last_tool == Some(name),
        s.blocks.len() > 0,
        s.blocks.last() == (BlockView::Tool { name, detail: before, status: ToolStatus::Running }),
    ensures
        ({
            let r = app::after_event(s, EventView::Stream(i), now);
            &&& r.blocks.len() == s.blocks.len()
            &&& r.blocks.drop_last() == s.blocks.drop_last()
            &&& r.blocks.last() == (BlockView::Tool {
                name,
                detail: if d.len() > 0 {
                    d
                } else {
                    before
                },
                status: ToolStatus::Running,
            })
        }),
{
    kinds_of_items();
    let r = app::after_event(s, EventView::Stream(i), now);
    assert(r.blocks.drop_last() =~= s.blocks.drop_last());
}

/// The last tool that runs is the one that ends: it is done or has failed, and
/// what it gave back stands in a line below.
pub proof fn ended_tools_are_shown_so(
    s: AppView,
    i: ItemView,
    name: Seq<char>,
    args: Seq<char>,
    d: Seq<char>,
    now: u64,
)
    requires
        s.stream is None,
        s.blocks.len() > 0,
        s.blocks.last() == (BlockView::Tool { name, detail: args, status: ToolStatus::Running }),
        i.detail == Some(d),
        0 < d.len() <= 220,
        i.status is None,
    ensures
        i.kind == "tool_output"@ ==> {
            let r = app::after_event(s, EventView::Stream(i), now);
            &&& r.blocks.len() == s.blocks.len() + 1
            &&& r.blocks.take(s.blocks.len() - 1) == s.blocks.drop_last()
            &&& r.blocks[s.blocks.len() - 1] == (BlockView::Tool {
                name,
                detail: args,
                status: ToolStatus::Done,
            })
            &&& r.blocks.last() matches BlockView::Plain(l) && l[0].content == "  ⎿ "@ + d
            &&& r.last_tool is None
        },
        i.kind == "tool_failed"@ ==> {
            let r = app::after_event(s, EventView::Stream(i), now);
            &&& r.blocks.len() == s.blocks.len() + 1
            &&& r.blocks[s.blocks.len() - 1] == (BlockView::Tool {
                name,
                detail: args,
                status: ToolStatus::Failed,
            })
            &&& r.blocks.last() matches BlockView::Plain(l) && l[0].content == "  ⎿ ✗ "@ + d
                && l[0].style.fg == Some(Color::Red)
        },
{
    kinds_of_items();
    let r = app::after_event(s, EventView::Stream(i), now);
    assert("  ⎿ "@ + d + Seq::<char>::empty() =~= "  ⎿ "@ + d);
    if i.kind == "tool_output"@ {
        assert(r.blocks.take(s.blocks.len() - 1) =~= s.blocks.drop_last());
    }
}

/// Blocks that are not a running tool are left as they are when a tool ends, and
/// of the running ones only the last is closed.
pub proof fn only_the_last_running_tool_ends(b: Seq<BlockView>, ok: bool, k: int)
    requires
        0 <= k < b.len(),
    ensures
        app::last_tool_finished(b, ok).len() == b.len(),
        !(b[k] matches BlockView::Tool { status, .. } && status == ToolStatus::Running)
            ==> app::last_tool_finished(b, ok)[k] == b[k],
        (exists|j: int|
            k < j < b.len() && ((#[trigger] b[j]) matches BlockView::Tool { status, .. } && status
                == ToolStatus::Running)) ==> app::last_tool_finished(b, ok)[k] == b[k],
        (b[k] matches BlockView::Tool { status, .. } && status == ToolStatus::Running) && (forall|j:
            int|
            k < j < b.len() ==> !((#[trigger] b[j]) matches BlockView::Tool { status, .. } && status
                == ToolStatus::Running)) ==> (app::last_tool_finished(b, ok)[k] matches BlockView::Tool {
            status,
            ..
        } && status == if ok {
            ToolStatus::Done
        } else {
            ToolStatus::Failed
        }),
    decreases b.len(),
{
    let c = b.drop_last();
    let n = b.len() - 1;
    if !(b.last() matches BlockView::Tool { status, .. } && status == ToolStatus::Running) {
        if k < n {
            only_the_last_running_tool_ends(c, ok, k);
            assert(c[k] == b[k]);
            assert forall|j: int|
                k < j < c.len() implies ((#[trigger] c[j]) == b[j]) by {}
            if exists|j: int|
                k < j < b.len() && ((#[trigger] b[j]) matches BlockView::Tool { status, .. }
                    && status == ToolStatus::Running) {
                let j = choose|j: int|
                    k < j < b.len() && ((#[trigger] b[j]) matches BlockView::Tool { status, .. }
                        && status == ToolStatus::Running);
                assert(j < n);
                assert(c[j] == b[j]);
            }
        } else if n > 0 {
            only_the_last_running_tool_ends(c, ok, 0);
        }
    } else {
        assert(b[n] == b.last());
    }
}

/// An error is shown as such, and so is what a run's service has to say.
pub proof fn errors_are_shown(s: AppView, t: Seq<char>, now: u64)
    requires
        s.stream is None,
    ensures
        adds_line(s, app::after_event(s, EventView::Error(t), now), "error: "@ + t, Color::Red),
        adds_line(s, app::after_event(s, EventView::Notice(t), now), "  · "@ + t, Color::Cyan),
{
    let r = app::after_event(s, EventView::Error(t), now);
    assert(r.blocks.take(s.blocks.len() as int) =~= s.blocks);
    let q = app::after_event(s, EventView::Notice(t), now);
    assert(q.blocks.take(s.blocks.len() as int) =~= s.blocks);
}

/// A tool that ran on this machine is heard of where it failed: its error, or the
/// number that it ended with; one that went well leaves no line.
pub proof fn local_tools_tell_of_failures(
    s: AppView,
    name: Seq<char>,
    ms: u64,
    exit: Option<i32>,
    why: Seq<char>,
    now: u64,
)
    requires
        s.stream is None,
    ensures
        adds_line(
            s,
            app::after_event(
                s,
                EventView::LocalToolDone { name, ms, exit, err: Some(why) },
                now,
            ),
            "  ⎿ ✗ "@ + name + ": "@ + why,
            Color::Red,
        ),
        exit matches Some(code) ==> code != 0 ==> adds_line(
            s,
            app::after_event(s, EventView::LocalToolDone { name, ms, exit, err: None }, now),
            "  ⎿ "@ + name + " exit "@ + digits::dec_int(code as int),
            Color::Red,
        ),
        exit is None || exit == Some(0i32) ==> app::after_event(
            s,
            EventView::LocalToolDone { name, ms, exit, err: None },
            now,
        ) == s,
{
    let r = app::after_event(s, EventView::LocalToolDone { name, ms, exit, err: Some(why) }, now);
    assert(r.blocks.take(s.blocks.len() as int) =~= s.blocks);
    let q = app::after_event(s, EventView::LocalToolDone { name, ms, exit, err: None }, now);
    if exit matches Some(code) && code != 0 {
        assert(q.blocks.take(s.blocks.len() as int) =~= s.blocks);
    }
}

/// A connection that comes and goes is told of; one that is lost ends the run and
/// the tools that ran in it.
pub proof fn connections_are_told_of(s: AppView, why: Seq<char>, now: u64, k: int)
    ensures
        ({
            let r = app::after_event(s, EventView::Connected, now);
            r.connected && r.status == "connected"@ && r.blocks == s.blocks && r.running
                == s.running
        }),
        ({
            let r = app::after_event(s, EventView::Disconnected(why), now);
            &&& !r.connected
            &&& !r.running
            &&& r.status == "disconnected — "@ + why
            &&& r.blocks.len() == s.blocks.len()
            &&& 0 <= k < s.blocks.len() ==> match s.blocks[k] {
                BlockView::Tool { name, detail, status } => r.blocks[k] == (BlockView::Tool {
                    name,
                    detail,
                    status: if status == ToolStatus::Running {
                        ToolStatus::Done
                    } else {
                        status
                    },
                }),
                _ => r.blocks[k] == s.blocks[k],
            }
        }),
{
}

/// A run that begins is marked as running, without tasks or tokens of its own
/// yet, and its time runs from when it was asked for.
pub proof fn runs_begin_afresh(s: AppView, now: u64)
    ensures
        ({
            let r = app::after_event(s, EventView::RunStarted, now);
            &&& r.running
            &&& r.status == "running…"@
            &&& r.run_tokens == 0
            &&& r.tasks.len() == 0
            &&& r.blocks == s.blocks
            &&& s.run_started is None ==> r.run_started == Some(now)
            &&& s.run_started is Some ==> r.run_started == s.run_started
        }),
{
}

/// A run that ends is marked by a rule with how it ended, and by how long it took
/// where its begin is known.
pub proof fn runs_end_with_a_rule(s: AppView, label: Seq<char>, now: u64, begun: u64)
    requires
        s.stream is None,
    ensures
        ({
            let r = app::after_event(s, EventView::RunFinished(label), now);
            &&& !r.running
            &&& r.run_started is None
            &&& r.blocks.len() == s.blocks.len() + 1
            &&& r.blocks.last() == BlockView::Rule(label)
            &&& s.run_started is None ==> r.last_elapsed is None && r.status == "idle ("@ + label
                + ")"@
            &&& s.run_started == Some(begun) && begun <= now ==> r.last_elapsed == Some(
                (now - begun) as u64,
            )
            &&& s.run_started == Some(begun) && begun <= now && now - begun < 60_000_000_000
                ==> r.status == "idle ("@ + label + ")"@ + (" · "@ + (digits::dec(
                ((now - begun) / 1_000_000_000) as nat,
            ) + "s"@))
        }),
{
    assert("idle ("@ + label + ")"@ + Seq::<char>::empty() =~= "idle ("@ + label + ")"@);
}

/// Tokens are counted: those of a run as it goes, and those of the whole run,
/// when it is told, for the session and the thread.
pub proof fn tokens_are_counted(s: AppView, n: i64, now: u64)
    requires
        0 <= n <= 0xffff_ffff,
        0 <= s.run_tokens <= 0xffff_ffff,
        0 <= s.session_tokens <= 0xffff_ffff,
        0 <= s.thread_tokens <= 0xffff_ffff,
    ensures
        ({
            let r = app::after_event(s, EventView::Credits { tokens: n, final_run: false }, now);
            &&& r.run_tokens == s.run_tokens + n
            &&& r.session_tokens == s.session_tokens
            &&& r.thread_tokens == s.thread_tokens
        }),
        ({
            let r = app::after_event(s, EventView::Credits { tokens: n, final_run: true }, now);
            &&& r.run_tokens == n
            &&& r.session_tokens == s.session_tokens + n
            &&& r.thread_tokens == s.thread_tokens + n
        }),
{
}

/// A run that needs an answer stops and asks: the form is shown from its first
/// field, with no answer yet.
pub proof fn runs_ask_with_a_form(
    s: AppView,
    id: Seq<char>,
    title: Seq<char>,
    message: Seq<char>,
    fields: Seq<FieldView>,
    now: u64,
)
    requires
        s.stream is None,
    ensures
        ({
            let r = app::after_event(s, EventView::Interrupt { id, title, message, fields }, now);
            let n = s.blocks.len();
            &&& !r.running
            &&& r.status == "input needed ⏸"@
            &&& r.pending == Some(PendingView { id, fields, idx: 0, answers: Seq::empty() })
            &&& r.blocks.len() == n + (if message.len() > 0 {
                2int
            } else {
                1
            })
            &&& r.blocks[n as int] matches BlockView::Plain(l) && l[0].content == "⏸ "@ + title
            &&& message.len() > 0 ==> (r.blocks[n as int + 1] matches BlockView::Plain(l) && l[0].content
                == "   "@ + message)
        }),
{
}

/// An answer to a field is echoed and kept under the field's key; the last one
/// sends the form and lets the run go on.
pub proof fn answers_fill_the_form(s: AppView, p: PendingView, t: Seq<char>, f: FieldView)
    requires
        s.stream is None,
        s.pending == Some(p),
        p.idx < p.fields.len(),
        f == p.fields[p.idx as int],
        f.ftype != "number"@ && f.ftype != "checkbox"@,
        forall|i: int| 0 <= i < p.answers.len() ==> (#[trigger] p.answers[i]).0 != f.key,
    ensures
        ({
            let r = app::submitted(s, t);
            let all = p.answers.push((f.key, AnswerView::Text(t)));
            &&& adds_line(s, r.0, "   "@ + f.label + " = "@ + t, Color::Magenta)
            &&& p.idx + 1 < p.fields.len() ==> {
                &&& r.1 is None
                &&& r.0.pending == Some(
                    PendingView { id: p.id, fields: p.fields, idx: (p.idx + 1) as usize, answers: all },
                )
            }
            &&& p.idx + 1 == p.fields.len() ==> {
                &&& r.1 == Some((p.id, all))
                &&& r.0.pending is None
                &&& r.0.running
            }
        }),
{
    unanswered(p.answers, f.key, 0);
    let r = app::submitted(s, t);
    assert(r.0.blocks.take(s.blocks.len() as int) =~= s.blocks);
}

proof fn unanswered(v: Seq<(Seq<char>, AnswerView)>, key: Seq<char>, from: int)
    requires
        0 <= from,
        forall|i: int| 0 <= i < v.len() ==> (#[trigger] v[i]).0 != key,
    ensures
        app::answer_position(v, key, from) is None,
    decreases v.len() - from,
{
    if from < v.len() {
        unanswered(v, key, from + 1);
    }
}

/// An answer is of its field's type: a number is kept without its blanks, a box
/// is checked by a word for yes, and anything else is kept as it was typed.
pub proof fn answers_are_of_their_type(t: Seq<char>)
    ensures
        app::answer_of("number"@, t) == AnswerView::Number(pieces::trim(t)),
        app::answer_of("text"@, t) == AnswerView::Text(t),
        ({
            let l = text::lowercase(pieces::trim(t));
            &&& l == "y"@ || l == "yes"@ || l == "true"@ || l == "1"@ || l == "on"@
                ==> app::answer_of("checkbox"@, t) == AnswerView::Checked(true)
            &&& l == "n"@ || l == "no"@ || l == "false"@ || l == "0"@ || l == "off"@ || l.len() == 0
                ==> app::answer_of("checkbox"@, t) == AnswerView::Checked(false)
        }),
{
    reveal_strlit("number");
    reveal_strlit("checkbox");
    reveal_strlit("text");
    assert("number"@.len() == 6);
    assert("checkbox"@.len() == 8);
    assert("text"@.len() == 4);
    reveal_strlit("y");
    reveal_strlit("yes");
    reveal_strlit("true");
    reveal_strlit("1");
    reveal_strlit("on");
    reveal_strlit("n");
    reveal_strlit("no");
    reveal_strlit("false");
    reveal_strlit("0");
    reveal_strlit("off");
    assert("y"@.len() == 1 && "y"@[0] == 'y');
    assert("yes"@.len() == 3 && "yes"@[0] == 'y');
    assert("true"@.len() == 4);
    assert("1"@.len() == 1 && "1"@[0] == '1');
    assert("on"@.len() == 2 && "on"@[0] == 'o');
    assert("n"@.len() == 1 && "n"@[0] == 'n');
    assert("no"@.len() == 2 && "no"@[0] == 'n');
    assert("false"@.len() == 5);
    assert("0"@.len() == 1 && "0"@[0] == '0');
    assert("off"@.len() == 3 && "off"@[0] == 'o');
}

/// The field that is asked for is named, with its place where there are several.
pub proof fn asked_fields_are_named(p: PendingView)
    requires
        p.idx < p.fields.len(),
    ensures
        p.fields.len() == 1 ==> app::pending_label_text(Some(p)) == Some(
            p.fields[p.idx as int].label,
        ),
        p.fields.len() > 1 ==> app::pending_label_text(Some(p)) == Some(
            p.fields[p.idx as int].label + " ["@ + digits::dec((p.idx + 1) as nat) + "/"@
                + digits::dec(p.fields.len()) + "]"@,
        ),
        app::pending_label_text(None) is None,
{
}

/// A task that is told of is listed with its title and state; one that is listed
/// already takes on its new state, and its new title where there is one.
pub proof fn tasks_take_on_their_state(
    t: Seq<TaskView>,
    k: int,
    id: Seq<char>,
    title: Seq<char>,
    st: TaskStatus,
    agent: Option<Seq<char>>,
)
    requires
        0 <= k < t.len(),
        t[k].id == id,
        forall|i: int| 0 <= i < k ==> (#[trigger] t[i]).id != id,
    ensures
        ({
            let r = app::task_upserted(t, id, title, true, st, agent);
            &&& r.len() == t.len()
            &&& r[k].status == st && r[k].title == title && r[k].id == id && r[k].agent == t[k].agent
            &&& forall|i: int| 0 <= i < t.len() && i != k ==> r[i] == t[i]
        }),
        ({
            let r = app::task_upserted(t, id, title, false, st, agent);
            &&& r.len() == t.len()
            &&& r[k].status == st && r[k].title == t[k].title && r[k].id == id
        }),
{
    found_at(t, id, k, 0);
}

proof fn found_at(t: Seq<TaskView>, id: Seq<char>, k: int, from: int)
    requires
        0 <= from <= k < t.len(),
        t[k].id == id,
        forall|i: int| 0 <= i < k ==> (#[trigger] t[i]).id != id,
    ensures
        app::task_position(t, id, from) == Some(k),
    decreases k - from,
{
    if from < k {
        found_at(t, id, k, from + 1);
    }
}

/// The word for a task's state is understood.
pub proof fn words_for_states_are_understood(running: Seq<char>)
    requires
        running == "running"@ || running == "started"@,
    ensures
        app::status_of(Some(running), running) == TaskStatus::Running,
        app::status_of(Some("completed"@), running) == TaskStatus::Completed,
        app::status_of(Some("failed"@), running) == TaskStatus::Failed,
        app::status_of(Some("pending"@), running) == TaskStatus::Created,
        app::status_of(None, running) == TaskStatus::Created,
{
    reveal_strlit("running");
    reveal_strlit("started");
    reveal_strlit("completed");
    reveal_strlit("failed");
    reveal_strlit("pending");
    assert("running"@.len() == 7 && "running"@[0] == 'r');
    assert("started"@.len() == 7 && "started"@[0] == 's');
    assert("completed"@.len() == 9);
    assert("failed"@.len() == 6);
    assert("pending"@.len() == 7 && "pending"@[0] == 'p');
}

/// A new task of a run is listed and marked in what is shown; a task that only
/// changes its state is not marked again.
pub proof fn new_tasks_are_marked(s: AppView, i: ItemView, id: Seq<char>, title: Seq<char>, now: u64)
    requires
        s.stream is None,
        i.kind == "task"@ && i.task_id == Some(id) && i.text == Some(title),
        !pieces::is_blank(title),
        s.last_task != Some(title),
    ensures
        i.status == Some("created"@) ==> {
            let r = app::after_event(s, EventView::Stream(i), now);
            &&& adds_line(s, r, "◇ "@ + title, Color::Yellow)
            &&& r.last_task == Some(title)
            &&& r.task_label == Some(title)
            &&& r.tasks == app::task_upserted(s.tasks, id, title, true, TaskStatus::Created, i.agent)
        },
        i.status == Some("completed"@) ==> {
            let r = app::after_event(s, EventView::Stream(i), now);
            &&& r.blocks == s.blocks
            &&& r.tasks == app::task_upserted(
                s.tasks,
                id,
                title,
                true,
                TaskStatus::Completed,
                i.agent,
            )
        },
{
    kinds_of_items();
    reveal_strlit("created");
    reveal_strlit("started");
    reveal_strlit("completed");
    reveal_strlit("failed");
    reveal_strlit("pending");
    assert("created"@.len() == 7 && "created"@[0] == 'c');
    assert("started"@.len() == 7 && "started"@[0] == 's');
    assert("pending"@.len() == 7 && "pending"@[0] == 'p');
    assert("completed"@.len() == 9);
    assert("failed"@.len() == 6);
    let r = app::after_event(s, EventView::Stream(i), now);
    if i.status == Some("created"@) {
        assert(r.blocks.take(s.blocks.len() as int) =~= s.blocks);
    }
}

/// Approvals that the session gives by itself are shown, and of the remarks of a
/// run those on artifacts, queues and interruptions.
pub proof fn approvals_and_remarks_are_shown(s: AppView, i: ItemView, d: Seq<char>, t: Seq<char>, now: u64)
    requires
        s.stream is None,
        i.text == Some(t),
        t.len() > 0 && !text::is_white(t[0]) && !text::is_white(t.last()),
    ensures
        i.kind == "approval"@ && i.detail == Some(d) ==> adds_line(
            s,
            app::after_event(s, EventView::Stream(i), now),
            "  ⚠ approval ("@ + d + ") "@ + t + " — auto-approved"@,
            Color::Yellow,
        ),
        i.kind == "note"@ && (text::starts_with(t, "artifact"@) || text::starts_with(t, "queued"@)
            || text::contains(t, "interrupt"@)) ==> adds_line(
            s,
            app::after_event(s, EventView::Stream(i), now),
            "· "@ + t,
            Color::DarkGray,
        ),
        i.kind == "note"@ && !text::starts_with(t, "artifact"@) && !text::starts_with(t, "queued"@)
            && !text::contains(t, "interrupt"@) ==> app::after_event(s, EventView::Stream(i), now)
            == s,
{
    kinds_of_items();
    crate::laws::texts::trimmed_texts_stay(t);
    let r = app::after_event(s, EventView::Stream(i), now);
    if i.kind == "approval"@ || i.kind == "note"@ {
        assert(r.blocks.len() == s.blocks.len() + 1 ==> r.blocks.take(s.blocks.len() as int)
            =~= s.blocks);
    }
}

/// What the user sends is shown as theirs, and starts the clock of the run.
pub proof fn sent_messages_are_shown(s: AppView, t: Seq<char>, now: u64)
    requires
        s.stream is None,
    ensures
        ({
            let r = app::user_echoed(s, t, now);
            &&& r.blocks == s.blocks.push(BlockView::User(t))
            &&& r.run_started == Some(now)
            &&& !r.pinned
            &&& r.follow
        }),
{
}

/// Times are told in seconds below a minute and in minutes and seconds from there
/// on.
pub proof fn times_are_told(secs: nat)
    ensures
        secs < 60 ==> app::elapsed_text(secs) == digits::dec(secs) + "s"@,
        secs >= 60 && secs % 60 >= 10 ==> app::elapsed_text(secs) == digits::dec(secs / 60) + ":"@
            + digits::dec(secs % 60),
        secs >= 60 && secs % 60 < 10 ==> app::elapsed_text(secs) == digits::dec(secs / 60) + ":"@
            + (seq!['0'] + digits::dec(secs % 60)),
{
    let r = secs % 60;
    reveal_with_fuel(digits::dec, 3);
    if r < 10 {
        assert(Seq::new(1, |i: int| '0') =~= seq!['0']);
    }
}

} // verus!
