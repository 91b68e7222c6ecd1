//! Earlier sessions: what is shown of the messages and events of a thread that
//! is opened again.

use vstd::prelude::*;
use crate::app;
use crate::app::AppView;
use crate::blocks::{BlockView, TaskStatus, TaskView, ToolStatus};
use crate::history;
use crate::json;
use crate::json::JsonView;
use crate::pieces;
use crate::style;
use crate::text;

verus! {

broadcast use vstd::seq::group_seq_axioms;

/// An event of the type `kind` whose payload is `p`.
pub open spec fn is_event(e: JsonView, kind: Seq<char>, p: JsonView) -> bool {
    json::field(e, "type"@) == Some(JsonView::Str(kind)) && json::field(e, "payload"@) == Some(p)
}

/// The agent that an event names, or else the supervisor.
pub open spec fn speaks(e: JsonView, agent: Seq<char>) -> bool {
    match json::field(e, "agentName"@) {
        Some(JsonView::Str(a)) => if a.len() > 0 {
            agent == a
        } else {
            agent == "Strobes AI Supervisor"@
        },
        _ => agent == "Strobes AI Supervisor"@,
    }
}

proof fn kinds_differ()
    ensures
        "message.segment.completed"@ != "message.created"@,
        "thinking.completed"@ != "message.created"@,
        "thinking.completed"@ != "message.segment.completed"@,
        "tool.start"@ != "message.created"@,
        "tool.start"@ != "message.segment.completed"@,
        "tool.start"@ != "thinking.completed"@,
        "tool.output"@ != "message.created"@,
        "tool.output"@ != "message.segment.completed"@,
        "tool.output"@ != "thinking.completed"@,
        "tool.output"@ != "tool.start"@,
        "tool.failed"@ != "message.created"@,
        "tool.failed"@ != "message.segment.completed"@,
        "tool.failed"@ != "thinking.completed"@,
        "tool.failed"@ != "tool.start"@,
        "tool.failed"@ != "tool.output"@,
{
    reveal_strlit("message.created");
    reveal_strlit("message.segment.completed");
    reveal_strlit("thinking.completed");
    reveal_strlit("tool.start");
    reveal_strlit("tool.output");
    reveal_strlit("tool.failed");
    assert("message.created"@.len() == 15);
    assert("message.segment.completed"@.len() == 25);
    assert("thinking.completed"@.len() == 18);
    assert("tool.start"@.len() == 10);
    assert("tool.output"@.len() == 11);
    assert("tool.failed"@.len() == 11);
    assert("tool.output"@[5] == 'o');
    assert("tool.failed"@[5] == 'f');
}

/// What an agent said is shown again: an earlier event that completes a message
/// with a text adds one block, which holds this text and the agent that the event
/// names (the supervisor where it names none). Where the last block is what the
/// same agent said just before, the text joins that block instead, after a blank
/// line.
pub proof fn earlier_messages_are_shown(
    s: AppView,
    e: JsonView,
    now: u64,
    p: JsonView,
    t: Seq<char>,
    agent: Seq<char>,
    before: Seq<char>,
)
    requires
        is_event(e, "message.segment.completed"@, p),
        json::field(p, "text"@) == Some(JsonView::Str(t)),
        !pieces::is_blank(t),
        speaks(e, agent),
    ensures
        ({
            let r = history::event_seeded(s, e, now);
            let n = s.blocks.len();
            &&& n == 0 || !(s.blocks[n - 1] matches BlockView::Assistant { agent: a, .. } && a
                == agent) ==> {
                &&& r.blocks.len() == n + 1
                &&& r.blocks.take(n as int) == s.blocks
                &&& r.blocks[n as int] == (BlockView::Assistant { agent, md: t })
            }
            &&& n > 0 && s.blocks[n - 1] == (BlockView::Assistant { agent, md: before }) ==> {
                &&& r.blocks.len() == n
                &&& r.blocks.take(n - 1) == s.blocks.take(n - 1)
                &&& r.blocks[n - 1] == (BlockView::Assistant {
                    agent,
                    md: before + seq!['\n', '\n'] + t,
                })
            }
        }),
{
    kinds_differ();
    reveal_strlit("\n\n");
    assert("\n\n"@ =~= seq!['\n', '\n']);
    let r = history::event_seeded(s, e, now);
    let n = s.blocks.len();
    assert(history::event_agent(e) == agent);
    assert(history::payload_text(e, "text"@) == t);
    if n == 0 || !(s.blocks[n - 1] matches BlockView::Assistant { agent: a, .. } && a == agent) {
        assert(r.blocks =~= s.blocks.push(BlockView::Assistant { agent, md: t }));
        assert(r.blocks.take(n as int) =~= s.blocks);
    } else {
        assert(r.blocks.take(n - 1) =~= s.blocks.take(n - 1));
    }
}

/// An earlier event without a text that says something shows nothing.
pub proof fn blank_events_show_nothing(s: AppView, e: JsonView, now: u64, p: JsonView, t: Seq<char>)
    requires
        is_event(e, "message.segment.completed"@, p) || is_event(e, "thinking.completed"@, p) || (
        is_event(e, "message.created"@, p) && json::field(e, "actor"@) == Some(
            JsonView::Str("user"@),
        )),
        json::field(p, "text"@) == Some(JsonView::Str(t)),
        pieces::is_blank(t),
    ensures
        history::event_seeded(s, e, now) == s,
{
    kinds_differ();
}

/// What was asked is shown again: an earlier message of the user adds one block
/// that holds its text.
pub proof fn earlier_questions_are_shown(s: AppView, e: JsonView, now: u64, p: JsonView, t: Seq<char>)
    requires
        is_event(e, "message.created"@, p),
        json::field(e, "actor"@) == Some(JsonView::Str("user"@)),
        json::field(p, "text"@) == Some(JsonView::Str(t)),
        !pieces::is_blank(t),
        s.stream is None,
    ensures
        ({
            let r = history::event_seeded(s, e, now);
            &&& r.blocks == s.blocks.push(BlockView::User(t))
            &&& !r.pinned
            &&& r.follow
        }),
{
}

/// What an agent thought is shown again, once: an earlier thought adds one block
/// that holds its text, unless the last block holds the same thought.
pub proof fn earlier_thoughts_are_shown(
    s: AppView,
    e: JsonView,
    now: u64,
    p: JsonView,
    t: Seq<char>,
    before: Seq<char>,
)
    requires
        is_event(e, "thinking.completed"@, p),
        json::field(p, "text"@) == Some(JsonView::Str(t)),
        !pieces::is_blank(t),
        s.stream is None,
    ensures
        ({
            let r = history::event_seeded(s, e, now);
            let n = s.blocks.len();
            &&& n == 0 || !(s.blocks[n - 1] is Thinking) ==> r.blocks == s.blocks.push(
                BlockView::Thinking(t),
            )
            &&& n > 0 && s.blocks[n - 1] == BlockView::Thinking(before) && pieces::trim(before)
                != pieces::trim(t) ==> r.blocks == s.blocks.push(BlockView::Thinking(t))
            &&& n > 0 && s.blocks[n - 1] == BlockView::Thinking(t) ==> r.blocks == s.blocks
        }),
{
    kinds_differ();
}

/// A tool that was called is shown again, as one that is done, with its name and
/// what it was called with in one line.
pub proof fn earlier_calls_are_shown(
    s: AppView,
    e: JsonView,
    now: u64,
    p: JsonView,
    name: Seq<char>,
    args: Seq<char>,
)
    requires
        is_event(e, "tool.start"@, p),
        json::field(p, "toolName"@) == Some(JsonView::Str(name)),
        json::field(p, "arguments"@) == Some(JsonView::Str(args)),
        args.len() <= 120,
        forall|i: int| 0 <= i < args.len() ==> (#[trigger] args[i]) != '\n',
        s.stream is None,
    ensures
        history::event_seeded(s, e, now).blocks == s.blocks.push(
            BlockView::Tool { name, detail: args, status: ToolStatus::Done },
        ),
{
    kinds_differ();
    one_line(args);
}

proof fn one_line(s: Seq<char>)
    requires
        forall|i: int| 0 <= i < s.len() ==> (#[trigger] s[i]) != '\n',
    ensures
        pieces::replace_char(s, '\n', " "@) == s,
    decreases s.len(),
{
    if s.len() > 0 {
        one_line(s.drop_last());
        assert(s.drop_last() + seq![s.last()] =~= s);
    }
}

/// What a tool gave back is shown again in a line of its own, and a tool that
/// gave nothing is said to be in order; an error is shown in red.
pub proof fn earlier_results_are_shown(
    s: AppView,
    e: JsonView,
    now: u64,
    p: JsonView,
    out: Seq<char>,
)
    requires
        s.stream is None,
        json::field(p, "durationMs"@) is None,
        0 < out.len() <= 220,
        forall|i: int| 0 <= i < out.len() ==> (#[trigger] out[i]) != '\n',
    ensures
        is_event(e, "tool.output"@, p) && json::field(p, "result"@) == Some(JsonView::Str(out)) ==> {
            let r = history::event_seeded(s, e, now);
            &&& r.blocks.len() == s.blocks.len() + 1
            &&& r.blocks.drop_last() == s.blocks
            &&& r.blocks.last() matches BlockView::Plain(l) && l.len() == 1 && l[0].content == "  ⎿ "@
                + out
        },
        is_event(e, "tool.output"@, p) && json::field(p, "result"@) is None ==> {
            let r = history::event_seeded(s, e, now);
            &&& r.blocks.len() == s.blocks.len() + 1
            &&& r.blocks.last() matches BlockView::Plain(l) && l.len() == 1 && l[0].content == "  ⎿ "@
                + "(ok)"@
        },
        is_event(e, "tool.failed"@, p) && json::field(p, "error"@) == Some(JsonView::Str(out)) ==> {
            let r = history::event_seeded(s, e, now);
            &&& r.blocks.len() == s.blocks.len() + 1
            &&& r.blocks.last() matches BlockView::Plain(l) && l.len() == 1 && l[0].content
                == "  ⎿ ✗ "@ + out && l[0].style.fg == Some(style::Color::Red)
        },
{
    kinds_differ();
    one_line(out);
    let r = history::event_seeded(s, e, now);
    assert(("  ⎿ "@ + out) + Seq::<char>::empty() =~= "  ⎿ "@ + out);
    assert(("  ⎿ "@ + "(ok)"@) + Seq::<char>::empty() =~= "  ⎿ "@ + "(ok)"@);
    finishing_keeps_the_number(s.blocks, false);
    if is_event(e, "tool.output"@, p) {
        assert(r.blocks.drop_last() =~= s.blocks);
    }
}

proof fn finishing_keeps_the_number(b: Seq<BlockView>, ok: bool)
    ensures
        app::last_tool_finished(b, ok).len() == b.len(),
    decreases b.len(),
{
    if b.len() > 0 {
        finishing_keeps_the_number(b.drop_last(), ok);
    }
}

/// The state of a task follows its last event.
pub proof fn earlier_tasks_are_listed(
    s: AppView,
    e: JsonView,
    now: u64,
    p: JsonView,
    kind: Seq<char>,
    id: Seq<char>,
    title: Seq<char>,
)
    requires
        is_event(e, kind, p),
        kind == "task.created"@ || kind == "task.started"@ || kind == "task.completed"@ || kind
            == "task.failed"@,
        json::field(e, "taskId"@) == Some(JsonView::Str(id)),
        json::field(p, "title"@) == Some(JsonView::Str(title)),
        !pieces::is_blank(title),
        forall|i: int| 0 <= i < s.tasks.len() ==> (#[trigger] s.tasks[i]).id != id,
    ensures
        ({
            let r = history::event_seeded(s, e, now);
            let t = r.tasks.last();
            &&& r.tasks.len() == s.tasks.len() + 1
            &&& r.tasks.drop_last() == s.tasks
            &&& t.id == id
            &&& t.title == title
            &&& kind == "task.created"@ ==> t.status == TaskStatus::Created
            &&& kind == "task.started"@ ==> t.status == TaskStatus::Running
            &&& kind == "task.completed"@ ==> t.status == TaskStatus::Completed
            &&& kind == "task.failed"@ ==> t.status == TaskStatus::Failed
        }),
{
    reveal_strlit("message.created");
    reveal_strlit("message.segment.completed");
    reveal_strlit("thinking.completed");
    reveal_strlit("tool.start");
    reveal_strlit("tool.output");
    reveal_strlit("tool.failed");
    reveal_strlit("task.");
    reveal_strlit("task.created");
    reveal_strlit("task.started");
    reveal_strlit("task.completed");
    reveal_strlit("task.failed");
    assert("task."@ =~= seq!['t', 'a', 's', 'k', '.']);
    assert(kind[1] == 'a');
    assert("tool.start"@[1] == 'o' && "tool.output"@[1] == 'o' && "tool.failed"@[1] == 'o');
    assert("message.created"@[1] == 'e' && "message.segment.completed"@[1] == 'e');
    assert("thinking.completed"@[1] == 'h');
    assert(kind.subrange(0, 5) =~= "task."@);
    assert("task.created"@[5] == 'c' && "task.created"@[6] == 'r');
    assert("task.completed"@[5] == 'c' && "task.completed"@[6] == 'o');
    assert("task.started"@[5] == 's' && "task.failed"@[5] == 'f');
    absent(s.tasks, id, 0);
    let u = app::task_upserted(
        s.tasks,
        id,
        title,
        true,
        history::event_status(kind),
        json::as_text(json::field(e, "agentName"@)),
    );
    assert(u.drop_last() =~= s.tasks);
    assert(history::payload_text(e, "title"@) == title);
    let r = history::event_seeded(s, e, now);
    flushing_keeps_the_tasks(AppView { tasks: u, ..s });
    assert(r.tasks == u);
}

proof fn flushing_keeps_the_tasks(s: AppView)
    ensures
        app::flushed(s).tasks == s.tasks,
{
}

proof fn absent(t: Seq<TaskView>, id: Seq<char>, from: int)
    requires
        0 <= from,
        forall|i: int| 0 <= i < t.len() ==> (#[trigger] t[i]).id != id,
    ensures
        app::task_position(t, id, from) is None,
    decreases t.len() - from,
{
    if from < t.len() {
        absent(t, id, from + 1);
    }
}

/// Events are shown in their order: showing two lists one after the other is
/// showing the events of both.
pub proof fn events_are_shown_in_order(s: AppView, a: Seq<JsonView>, b: Seq<JsonView>, now: u64)
    ensures
        history::events_seeded(s, a + b, now) == history::events_seeded(
            history::events_seeded(s, a, now),
            b,
            now,
        ),
        history::events_seeded(s, Seq::empty(), now) == s,
    decreases b.len(),
{
    if b.len() == 0 {
        assert(a + b =~= a);
    } else {
        events_are_shown_in_order(s, a, b.drop_last(), now);
        assert((a + b).drop_last() =~= a + b.drop_last());
        assert((a + b).last() == b.last());
    }
}

/// An earlier message is shown under the name of who wrote it: the user's as a
/// question, an agent's as an answer, the orchestrator's as the supervisor's, and
/// anyone else's as a line with their name.
pub proof fn earlier_authors_are_told(s: AppView, author: Seq<char>, t: Seq<char>, now: u64)
    requires
        !pieces::is_blank(t),
        s.stream is None,
    ensures
        ({
            let r = history::message_seeded(s, author, t, now);
            &&& author == "user"@ ==> r.blocks == s.blocks.push(BlockView::User(t))
            &&& author == "agent"@ ==> r.blocks == s.blocks.push(
                BlockView::Assistant { agent: "agent"@, md: t },
            )
            &&& author == "orchestrator"@ ==> r.blocks == s.blocks.push(
                BlockView::Assistant { agent: "Strobes AI Supervisor"@, md: t },
            )
            &&& author != "user"@ && author != "agent"@ && author != "orchestrator"@ ==> {
                &&& r.blocks.len() == s.blocks.len() + 1
                &&& r.blocks.last() matches BlockView::Plain(l) && l.len() == 1 && l[0].content
                    == "· "@ + author + ": "@ + t
            }
        }),
{
    reveal_strlit("user");
    reveal_strlit("agent");
    reveal_strlit("orchestrator");
}

/// Messages are shown in their order, each as it is alone.
pub proof fn messages_are_shown_in_order(
    s: AppView,
    m: Seq<(Seq<char>, Seq<char>)>,
    author: Seq<char>,
    t: Seq<char>,
    now: u64,
)
    ensures
        history::messages_seeded(s, Seq::empty(), now) == s,
        history::messages_seeded(s, m.push((author, t)), now) == history::message_seeded(
            history::messages_seeded(s, m, now),
            author,
            t,
            now,
        ),
        pieces::is_blank(t) ==> history::message_seeded(s, author, t, now) == s,
{
    assert(m.push((author, t)).drop_last() =~= m);
}

/// What was there before stands between the rules "history" and "live", and the
/// view follows what comes.
pub proof fn history_stands_between_its_rules(
    s: AppView,
    m: Seq<(Seq<char>, Seq<char>)>,
    ev: Seq<JsonView>,
    now: u64,
)
    requires
        s.stream is None,
    ensures
        m.len() == 0 ==> history::with_messages(s, m, now) == s,
        ev.len() == 0 ==> history::with_events(s, ev, now) == s,
        m.len() > 0 ==> {
            let r = history::with_messages(s, m, now);
            r.follow && r.blocks.len() > 0 && r.blocks.last() == BlockView::Rule("live"@)
        },
        ev.len() > 0 ==> {
            let r = history::with_events(s, ev, now);
            r.follow && r.blocks.len() > 0 && r.blocks.last() == BlockView::Rule("live"@)
        },
        app::ruled(s, "history"@).blocks == s.blocks.push(BlockView::Rule("history"@)),
{
}

/// A run that still goes on is announced; one that has ended is not.
pub proof fn runs_in_progress_are_announced(s: AppView, status: Seq<char>)
    requires
        s.stream is None,
    ensures
        status == "running"@ || status == "pending"@ || status == "queued"@ || status
            == "in_progress"@ ==> {
            let r = history::run_noted(s, status);
            &&& r.running
            &&& r.status == "run "@ + status + " (in progress)"@
            &&& r.blocks.len() == s.blocks.len() + 1
            &&& r.blocks.last() matches BlockView::Plain(l) && text::contains(l[0].content, status)
        },
        status == "completed"@ || status == "failed"@ || status == "cancelled"@
            ==> history::run_noted(s, status) == s,
{
    reveal_strlit("running");
    reveal_strlit("pending");
    reveal_strlit("queued");
    reveal_strlit("in_progress");
    reveal_strlit("completed");
    reveal_strlit("failed");
    reveal_strlit("cancelled");
    assert("queued"@[0] == 'q' && "failed"@[0] == 'f');
    assert("completed"@[0] == 'c' && "cancelled"@[0] == 'c');
    crate::laws::texts::wholes_hold_their_parts(
        "▶ a run is already "@,
        status,
        " — streaming live updates…"@,
    );
}

} // verus!
