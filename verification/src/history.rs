//! The transcript of an earlier conversation.

use vstd::prelude::*;
use crate::api::HistMsg;
use crate::app;
use crate::app::{App, Block, TaskStatus, ToolStatus};
use crate::blocks;
use crate::digits;
use crate::json;
use crate::json::Json;
use crate::pieces;
use crate::style;
use crate::style::{Color, Style};
use crate::text;

verus! {

broadcast use {
    vstd::seq::group_seq_axioms,
    vstd::string::group_string_axioms,
    blocks::group_blocks,
    style::group_styled,
    text::views_push,
    text::views_empty,
};

/// The name under which the supervising agent speaks.
pub const SUPERVISOR: &'static str = "Strobes AI Supervisor";

// ---- values on one line ------------------------------------------------------------

/// A value as one line of at most `limit` characters.
pub open spec fn compact_value(v: Option<json::JsonView>, limit: nat) -> Seq<char> {
    match v {
        None => Seq::empty(),
        Some(json::JsonView::Null) => Seq::empty(),
        Some(json::JsonView::Str(s)) => text::truncated(
            pieces::replace_char(s, '\n', " "@),
            limit,
        ),
        Some(other) => text::truncated(
            pieces::replace_char(json::compact_text(json::normal(other)), '\n', " "@),
            limit,
        ),
    }
}

/// A value as one line of at most `limit` characters.
pub fn compact_json(v: Option<&Json>, limit: usize) -> (r: String)
    ensures
        r@ == compact_value(json::opt_value(v), limit as nat),
{
    match v {
        None => String::new(),
        Some(j) => match j {
            Json::Null => String::new(),
            Json::Str(s) => {
                let t = pieces::str_replace_char(s, '\n', " ");
                text::truncate(&t, limit)
            },
            _ => {
                let s = json::to_text(j);
                let t = pieces::str_replace_char(&s, '\n', " ");
                text::truncate(&t, limit)
            },
        },
    }
}

// ---- messages ----------------------------------------------------------------------

/// The transcript after one earlier message.
pub open spec fn message_seeded(
    s: app::AppView,
    author: Seq<char>,
    content: Seq<char>,
    now: u64,
) -> app::AppView {
    if pieces::is_blank(content) {
        s
    } else if author == "user"@ {
        app::user_echoed(s, content, now)
    } else if author == "agent"@ || author == "orchestrator"@ {
        let f = app::flushed(s);
        app::AppView {
            blocks: f.blocks.push(
                blocks::BlockView::Assistant {
                    agent: if author == "orchestrator"@ {
                        SUPERVISOR@
                    } else {
                        author
                    },
                    md: content,
                },
            ),
            ..f
        }
    } else {
        app::system_line(s, "· "@ + author + ": "@ + content)
    }
}

/// The transcript after the first `n` earlier messages.
pub open spec fn messages_seeded(
    s: app::AppView,
    m: Seq<(Seq<char>, Seq<char>)>,
    now: u64,
) -> app::AppView
    decreases m.len(),
{
    if m.len() == 0 {
        s
    } else {
        message_seeded(messages_seeded(s, m.drop_last(), now), m.last().0, m.last().1, now)
    }
}

/// Author and text of each message.
pub open spec fn authored(m: Seq<HistMsg>) -> Seq<(Seq<char>, Seq<char>)> {
    m.map_values(|x: HistMsg| (x.author@, x.text@))
}

/// The transcript with a rule before and after what was seeded.
pub open spec fn closed_by_live(s: app::AppView) -> app::AppView {
    app::AppView { follow: true, ..app::ruled(s, "live"@) }
}

/// The transcript that begins with the messages of an earlier conversation.
pub open spec fn with_messages(
    s: app::AppView,
    m: Seq<(Seq<char>, Seq<char>)>,
    now: u64,
) -> app::AppView {
    if m.len() == 0 {
        s
    } else {
        closed_by_live(messages_seeded(app::ruled(s, "history"@), m, now))
    }
}

impl App {
    fn seed_message(&mut self, author: &str, content: &str, now: u64)
        ensures
            final(self)@ == message_seeded(old(self)@, author@, content@, now),
    {
        if pieces::str_is_blank(content) {
            return;
        }
        if text::str_eq(author, "user") {
            self.echo_user(content, now);
        } else if text::str_eq(author, "agent") || text::str_eq(author, "orchestrator") {
            self.flush_stream();
            let agent = if text::str_eq(author, "orchestrator") {
                SUPERVISOR.to_owned()
            } else {
                author.to_owned()
            };
            self.blocks.push(Block::Assistant { agent, md: content.to_owned() });
        } else {
            let mut s = "· ".to_owned();
            s.push_str(author);
            s.push_str(": ");
            s.push_str(content);
            self.sys(&s);
        }
    }

    /// Begins the transcript with the messages of an earlier conversation.
    pub fn seed_history(&mut self, messages: Vec<HistMsg>, now: u64)
        ensures
            final(self)@ == with_messages(old(self)@, authored(messages@), now),
    {
        if messages.len() == 0 {
            return;
        }
        self.rule("history");
        let ghost all = authored(messages@);
        let ghost begun = self@;
        let mut i: usize = 0;
        while i < messages.len()
            invariant
                i <= messages@.len(),
                all == authored(messages@),
                self@ == messages_seeded(begun, all.take(i as int), now),
            decreases messages@.len() - i,
        {
            assert(all.take(i + 1).drop_last() =~= all.take(i as int));
            assert(all.take(i + 1).last() == (
                messages@[i as int].author@,
                messages@[i as int].text@,
            ));
            self.seed_message(&messages[i].author, &messages[i].text, now);
            i += 1;
        }
        assert(all.take(all.len() as int) =~= all);
        self.rule("live");
        self.follow = true;
    }
}

// ---- events ------------------------------------------------------------------------

/// Text `key` of the payload of an event.
pub open spec fn payload_text(e: json::JsonView, key: Seq<char>) -> Seq<char> {
    json::text_or_empty(json::opt_field(json::field(e, "payload"@), key))
}

/// The agent that an event names; the supervisor where it names none.
pub open spec fn event_agent(e: json::JsonView) -> Seq<char> {
    match json::as_text(json::field(e, "agentName"@)) {
        Some(a) if a.len() > 0 => a,
        _ => SUPERVISOR@,
    }
}

/// The line under an earlier tool call.
pub open spec fn output_line(p: Option<json::JsonView>) -> Seq<char> {
    let res = compact_value(json::opt_field(p, "result"@), 220);
    "  ⎿ "@ + (if res.len() == 0 {
        "(ok)"@
    } else {
        res
    }) + (match json::as_int(json::opt_field(p, "durationMs"@)) {
        Some(d) => "  ·"@ + digits::dec_int(d) + "ms"@,
        None => Seq::empty(),
    })
}

/// The status that an earlier task event stands for.
pub open spec fn event_status(etype: Seq<char>) -> TaskStatus {
    if etype == "task.started"@ {
        TaskStatus::Running
    } else if etype == "task.completed"@ {
        TaskStatus::Completed
    } else if etype == "task.failed"@ {
        TaskStatus::Failed
    } else {
        TaskStatus::Created
    }
}

/// An earlier task event: the panel, and a mark for a task that was created.
pub open spec fn task_seeded(s: app::AppView, e: json::JsonView, etype: Seq<char>) -> app::AppView {
    let title = payload_text(e, "title"@);
    let titled = !pieces::is_blank(title);
    let t = match json::as_text(json::field(e, "taskId"@)) {
        Some(id) => app::AppView {
            tasks: app::task_upserted(
                s.tasks,
                id,
                title,
                titled,
                event_status(etype),
                json::as_text(json::field(e, "agentName"@)),
            ),
            ..s
        },
        None => s,
    };
    if etype == "task.created"@ && titled && t.last_task != Some(title) {
        app::task_marked(t, title)
    } else {
        t
    }
}

/// The panel after one task of a plan.
pub open spec fn planned(t: Seq<blocks::TaskView>, task: json::JsonView) -> Seq<blocks::TaskView> {
    let title = json::text_field(task, "title"@);
    let word = text::text_or(json::as_text(json::field(task, "status"@)), "pending"@);
    match json::as_text(json::field(task, "id"@)) {
        Some(id) if title.len() > 0 => app::task_upserted(
            t,
            id,
            title,
            true,
            app::status_of(Some(word), "running"@),
            json::as_text(json::field(task, "agentName"@)),
        ),
        _ => t,
    }
}

/// The panel after the tasks of a plan.
pub open spec fn plan_seeded(t: Seq<blocks::TaskView>, plan: Seq<json::JsonView>) -> Seq<
    blocks::TaskView,
>
    decreases plan.len(),
{
    if plan.len() == 0 {
        t
    } else {
        planned(plan_seeded(t, plan.drop_last()), plan.last())
    }
}

/// The transcript after one earlier event.
pub open spec fn event_seeded(s: app::AppView, e: json::JsonView, now: u64) -> app::AppView {
    let etype = json::text_field(e, "type"@);
    let p = json::field(e, "payload"@);
    if etype == "message.created"@ && json::text_field(e, "actor"@) == "user"@ {
        if pieces::is_blank(payload_text(e, "text"@)) {
            s
        } else {
            app::user_echoed(s, payload_text(e, "text"@), now)
        }
    } else if etype == "message.segment.completed"@ {
        app::assistant_pushed(s, event_agent(e), payload_text(e, "text"@))
    } else if etype == "thinking.completed"@ {
        app::thinking_pushed(s, payload_text(e, "text"@))
    } else if etype == "tool.start"@ {
        let f = app::flushed(s);
        app::AppView {
            blocks: f.blocks.push(
                blocks::BlockView::Tool {
                    name: payload_text(e, "toolName"@),
                    detail: compact_value(json::opt_field(p, "arguments"@), 120),
                    status: ToolStatus::Done,
                },
            ),
            ..f
        }
    } else if etype == "tool.output"@ {
        app::line_pushed(s, output_line(p), style::colored(Color::DarkGray))
    } else if etype == "tool.failed"@ {
        app::line_pushed(
            app::tool_finished(s, false),
            "  ⎿ ✗ "@ + payload_text(e, "error"@),
            style::colored(Color::Red),
        )
    } else if text::starts_with(etype, "task."@) {
        task_seeded(s, e, etype)
    } else if etype == "plan.updated"@ {
        app::AppView {
            tasks: plan_seeded(s.tasks, json::items(json::opt_field(p, "tasks"@))),
            ..s
        }
    } else {
        s
    }
}

/// The transcript after earlier events, in order.
pub open spec fn events_seeded(s: app::AppView, ev: Seq<json::JsonView>, now: u64) -> app::AppView
    decreases ev.len(),
{
    if ev.len() == 0 {
        s
    } else {
        event_seeded(events_seeded(s, ev.drop_last(), now), ev.last(), now)
    }
}

/// The transcript that begins with the events of an earlier conversation.
pub open spec fn with_events(s: app::AppView, ev: Seq<json::JsonView>, now: u64) -> app::AppView {
    if ev.len() == 0 {
        s
    } else {
        closed_by_live(events_seeded(app::ruled(s, "history"@), ev, now))
    }
}

pub(crate) fn payload_string(e: &Json, key: &str) -> (r: String)
    ensures
        r@ == payload_text(e@, key@),
{
    json::opt_text_or_empty(json::opt_get(e.get("payload"), key))
}

/// The agent that an event names; the supervisor where it names none.
pub(crate) fn agent_of_event(e: &Json) -> (r: String)
    ensures
        r@ == event_agent(e@),
{
    match json::opt_text(e.get("agentName")) {
        Some(a) => {
            if text::char_count(&a) > 0 {
                return a;
            }
        },
        None => {},
    }
    SUPERVISOR.to_owned()
}

fn status_of_event(etype: &str) -> (r: TaskStatus)
    ensures
        r == event_status(etype@),
{
    if text::str_eq(etype, "task.started") {
        TaskStatus::Running
    } else if text::str_eq(etype, "task.completed") {
        TaskStatus::Completed
    } else if text::str_eq(etype, "task.failed") {
        TaskStatus::Failed
    } else {
        TaskStatus::Created
    }
}

fn tool_output_text(p: Option<&Json>) -> (r: String)
    ensures
        r@ == output_line(json::opt_value(p)),
{
    let res = compact_json(json::opt_get(p, "result"), 220);
    let mut s = "  ⎿ ".to_owned();
    if text::char_count(&res) == 0 {
        s.push_str("(ok)");
    } else {
        s.push_str(&res);
    }
    let ghost body = s@;
    match json::opt_int(json::opt_get(p, "durationMs")) {
        Some(d) => {
            let mut t = "  ·".to_owned();
            let n = digits::i64_to_string(d);
            t.push_str(&n);
            t.push_str("ms");
            s.push_str(&t);
        },
        None => {
            assert(body + Seq::<char>::empty() =~= body);
        },
    }
    s
}

impl App {
    fn seed_task(&mut self, e: &Json, etype: &str)
        ensures
            final(self)@ == task_seeded(old(self)@, e@, etype@),
    {
        let title = payload_string(e, "title");
        let titled = !pieces::str_is_blank(&title);
        match json::opt_text(e.get("taskId")) {
            Some(id) => {
                let agent = json::opt_text(e.get("agentName"));
                self.upsert_task(&id, &title, titled, status_of_event(etype), agent);
            },
            None => {},
        }
        if text::str_eq(etype, "task.created") && titled && !text::opt_is(&self.last_task, &title) {
            self.mark_task(&title);
        }
    }

    fn seed_planned(&mut self, task: &Json)
        ensures
            final(self)@ == (app::AppView {
                tasks: planned(old(self)@.tasks, task@),
                ..old(self)@
            }),
    {
        let title = task.get_text("title");
        if text::char_count(&title) == 0 {
            return;
        }
        match json::opt_text(task.get("id")) {
            Some(id) => {
                let word = text::opt_or(&json::opt_text(task.get("status")), "pending");
                let status = app::word_status(&Some(word), "running");
                let agent = json::opt_text(task.get("agentName"));
                self.upsert_task(&id, &title, true, status, agent);
            },
            None => {},
        }
    }

    fn seed_plan(&mut self, plan: Option<&Json>)
        ensures
            final(self)@ == (app::AppView {
                tasks: plan_seeded(old(self)@.tasks, json::items(json::opt_value(plan))),
                ..old(self)@
            }),
    {
        match plan {
            Some(Json::Arr(v)) => {
                let ghost start = self@;
                let ghost all = json::values(v@);
                proof {
                    json::values_index(v@);
                }
                let mut i: usize = 0;
                while i < v.len()
                    invariant
                        i <= v@.len(),
                        all == json::values(v@),
                        all.len() == v@.len(),
                        forall|k: int| 0 <= k < v@.len() ==> (#[trigger] all[k]) == json::value(v@[k]),
                        self@ == (app::AppView {
                            tasks: plan_seeded(start.tasks, all.take(i as int)),
                            ..start
                        }),
                    decreases v@.len() - i,
                {
                    assert(all.take(i + 1).drop_last() =~= all.take(i as int));
                    assert(all.take(i + 1).last() == all[i as int]);
                    self.seed_planned(&v[i]);
                    i += 1;
                }
                assert(all.take(all.len() as int) =~= all);
            },
            _ => {},
        }
    }

    fn seed_event(&mut self, e: &Json, now: u64)
        ensures
            final(self)@ == event_seeded(old(self)@, e@, now),
    {
        let etype = e.get_text("type");
        let actor = e.get_text("actor");
        if text::str_eq(&etype, "message.created") && text::str_eq(&actor, "user") {
            let t = payload_string(e, "text");
            if !pieces::str_is_blank(&t) {
                self.echo_user(&t, now);
            }
        } else if text::str_eq(&etype, "message.segment.completed") {
            let agent = agent_of_event(e);
            let t = payload_string(e, "text");
            self.push_assistant(agent, t);
        } else if text::str_eq(&etype, "thinking.completed") {
            let t = payload_string(e, "text");
            self.push_thinking(t);
        } else if text::str_eq(&etype, "tool.start") {
            let name = payload_string(e, "toolName");
            let detail = compact_json(json::opt_get(e.get("payload"), "arguments"), 120);
            self.flush_stream();
            self.blocks.push(Block::Tool { name, detail, status: ToolStatus::Done });
        } else if text::str_eq(&etype, "tool.output") {
            let s = tool_output_text(e.get("payload"));
            self.push(s, Style::colored(Color::DarkGray));
        } else if text::str_eq(&etype, "tool.failed") {
            self.finish_last_tool(false);
            let mut s = "  ⎿ ✗ ".to_owned();
            let why = payload_string(e, "error");
            s.push_str(&why);
            self.push(s, Style::colored(Color::Red));
        } else if text::str_starts_with(&etype, "task.") {
            self.seed_task(e, &etype);
        } else if text::str_eq(&etype, "plan.updated") {
            self.seed_plan(json::opt_get(e.get("payload"), "tasks"));
        }
    }

    /// Begins the transcript with the events of an earlier conversation, in
    /// their order: messages, tool calls and results, tasks, thoughts.
    pub fn seed_history_events(&mut self, events: Vec<Json>, now: u64)
        ensures
            final(self)@ == with_events(old(self)@, json::values(events@), now),
    {
        if events.len() == 0 {
            return;
        }
        self.rule("history");
        let ghost begun = self@;
        let ghost all = json::values(events@);
        proof {
            json::values_index(events@);
        }
        let mut i: usize = 0;
        while i < events.len()
            invariant
                i <= events@.len(),
                all == json::values(events@),
                all.len() == events@.len(),
                forall|k: int| 0 <= k < events@.len() ==> (#[trigger] all[k]) == json::value(events@[k]),
                self@ == events_seeded(begun, all.take(i as int), now),
            decreases events@.len() - i,
        {
            assert(all.take(i + 1).drop_last() =~= all.take(i as int));
            assert(all.take(i + 1).last() == all[i as int]);
            self.seed_event(&events[i], now);
            i += 1;
        }
        assert(all.take(all.len() as int) =~= all);
        self.rule("live");
        self.follow = true;
    }
}

proof fn plans_keep_the_list(t: Seq<blocks::TaskView>, plan: Seq<json::JsonView>)
    requires
        app::ids_differ(t),
    ensures
        app::ids_differ(plan_seeded(t, plan)),
        app::extends_ids(t, plan_seeded(t, plan)),
    decreases plan.len(),
{
    if plan.len() > 0 {
        let before = plan_seeded(t, plan.drop_last());
        plans_keep_the_list(t, plan.drop_last());
        let task = plan.last();
        let title = json::text_field(task, "title"@);
        let word = text::text_or(json::as_text(json::field(task, "status"@)), "pending"@);
        if let Some(id) = json::as_text(json::field(task, "id"@)) {
            app::updates_keep_the_list(
                before,
                id,
                title,
                true,
                app::status_of(Some(word), "running"@),
                json::as_text(json::field(task, "agentName"@)),
            );
        }
    }
}

proof fn event_keeps_the_list(s: app::AppView, e: json::JsonView, now: u64)
    requires
        app::ids_differ(s.tasks),
    ensures
        app::ids_differ(event_seeded(s, e, now).tasks),
        app::extends_ids(s.tasks, event_seeded(s, e, now).tasks),
{
    let etype = json::text_field(e, "type"@);
    let title = payload_text(e, "title"@);
    if let Some(id) = json::as_text(json::field(e, "taskId"@)) {
        app::updates_keep_the_list(
            s.tasks,
            id,
            title,
            !pieces::is_blank(title),
            event_status(etype),
            json::as_text(json::field(e, "agentName"@)),
        );
    }
    plans_keep_the_list(
        s.tasks,
        json::items(json::opt_field(json::field(e, "payload"@), "tasks"@)),
    );
}

proof fn events_keep_the_list(s: app::AppView, ev: Seq<json::JsonView>, now: u64)
    requires
        app::ids_differ(s.tasks),
    ensures
        app::ids_differ(events_seeded(s, ev, now).tasks),
        app::extends_ids(s.tasks, events_seeded(s, ev, now).tasks),
    decreases ev.len(),
{
    if ev.len() > 0 {
        events_keep_the_list(s, ev.drop_last(), now);
        event_keeps_the_list(events_seeded(s, ev.drop_last(), now), ev.last(), now);
    }
}

/// Whatever the events of an earlier conversation say, the panel lists each
/// task once, and those that it listed before stay first, in their order.
pub proof fn seeded_tasks_are_listed_once(s: app::AppView, ev: Seq<json::JsonView>, now: u64)
    requires
        app::ids_differ(s.tasks),
    ensures
        app::ids_differ(with_events(s, ev, now).tasks),
        app::extends_ids(s.tasks, with_events(s, ev, now).tasks),
{
    if ev.len() > 0 {
        events_keep_the_list(app::ruled(s, "history"@), ev, now);
    }
}

// ---- a run that was going on already -----------------------------------------------------

/// The status of a run that has not ended.
pub open spec fn in_progress(status: Seq<char>) -> bool {
    status == "running"@ || status == "pending"@ || status == "queued"@ || status == "in_progress"@
}

/// The session that shows a run which was going on when it began.
pub open spec fn run_noted(s: app::AppView, status: Seq<char>) -> app::AppView {
    if in_progress(status) {
        app::line_pushed(
            app::AppView { running: true, status: "run "@ + status + " (in progress)"@, ..s },
            "▶ a run is already "@ + status + " — streaming live updates…"@,
            style::bold(Color::Blue),
        )
    } else {
        s
    }
}

impl App {
    /// Shows that a run was going on when the session began; a run that has
    /// ended is not shown.
    pub fn note_active_run(&mut self, status: &str)
        ensures
            final(self)@ == run_noted(old(self)@, status@),
    {
        if text::str_eq(status, "running") || text::str_eq(status, "pending") || text::str_eq(
            status,
            "queued",
        ) || text::str_eq(status, "in_progress") {
            self.running = true;
            let mut st = "run ".to_owned();
            st.push_str(status);
            st.push_str(" (in progress)");
            self.status = st;
            let mut s = "▶ a run is already ".to_owned();
            s.push_str(status);
            s.push_str(" — streaming live updates…");
            self.push(s, Style::bold(Color::Blue));
        }
    }
}

} // verus!
