//! One message and its reply: what is printed, what the JSON report holds,
//! and how the command ends.

use vstd::prelude::*;
use crate::api::Finding;
use crate::digits;
use crate::json;
use crate::json::Json;
use crate::pulse;
use crate::pulse::{AppEvent, Field, StreamItem};
use crate::sarif;
use crate::severity;
use crate::text;

verus! {

broadcast use {
    vstd::seq::group_seq_axioms,
    vstd::string::group_string_axioms,
    json::fields_push,
    json::fields_empty,
    json::values_push,
    json::values_empty,
};

// ---- the run ---------------------------------------------------------------------------

/// A tool call of the report: `note` is what it gave or why it failed.
pub struct ToolCall {
    pub name: String,
    pub detail: String,
    pub status: CallStatus,
    pub note: String,
}

#[derive(Clone, Copy, Debug, PartialEq, Eq, Structural)]
pub enum CallStatus {
    Running,
    Done,
    Failed,
}

pub struct CallView {
    pub name: Seq<char>,
    pub detail: Seq<char>,
    pub status: CallStatus,
    pub note: Seq<char>,
}

impl View for ToolCall {
    type V = CallView;

    open spec fn view(&self) -> CallView {
        CallView {
            name: self.name@,
            detail: self.detail@,
            status: self.status,
            note: self.note@,
        }
    }
}

pub open spec fn calls(v: Seq<ToolCall>) -> Seq<CallView> {
    v.map_values(|c: ToolCall| c@)
}

/// How a run stands, as the report says it.
#[derive(Clone, Copy, Debug, PartialEq, Eq, Structural)]
pub enum RunStatus {
    Success,
    Timeout,
    Error,
    Interrupted,
}

/// A message that was sent and whose reply is awaited.
pub struct SendRun {
    pub json_mode: bool,
    pub non_interactive: bool,
    /// The time limit in seconds.
    pub timeout: u64,
    /// The last line that was printed is not complete.
    pub needs_newline: bool,
    pub said: String,
    pub tools: Vec<ToolCall>,
    pub status: RunStatus,
    pub error: Option<String>,
}

pub struct SendView {
    pub json_mode: bool,
    pub non_interactive: bool,
    pub timeout: u64,
    pub needs_newline: bool,
    pub said: Seq<char>,
    pub tools: Seq<CallView>,
    pub status: RunStatus,
    pub error: Option<Seq<char>>,
}

impl View for SendRun {
    type V = SendView;

    open spec fn view(&self) -> SendView {
        SendView {
            json_mode: self.json_mode,
            non_interactive: self.non_interactive,
            timeout: self.timeout,
            needs_newline: self.needs_newline,
            said: self.said@,
            tools: calls(self.tools@),
            status: self.status,
            error: text::opt_view(self.error),
        }
    }
}

/// What happens while a reply is awaited.
pub enum SendEvent {
    TimedOut,
    Closed,
    Event(AppEvent),
}

pub enum SendEventView {
    TimedOut,
    Closed,
    Event(pulse::EventView),
}

impl View for SendEvent {
    type V = SendEventView;

    open spec fn view(&self) -> SendEventView {
        match self {
            SendEvent::TimedOut => SendEventView::TimedOut,
            SendEvent::Closed => SendEventView::Closed,
            SendEvent::Event(e) => SendEventView::Event(e@),
        }
    }
}

/// How the run goes on.
pub enum Next {
    Continue,
    Done,
    Fail(String),
    /// The fields of a form are asked for, and the answers sent back.
    Ask { id: String, fields: Vec<Field> },
}

pub enum NextView {
    Continue,
    Done,
    Fail(Seq<char>),
    Ask { id: Seq<char>, fields: Seq<pulse::FieldView> },
}

impl View for Next {
    type V = NextView;

    open spec fn view(&self) -> NextView {
        match self {
            Next::Continue => NextView::Continue,
            Next::Done => NextView::Done,
            Next::Fail(e) => NextView::Fail(e@),
            Next::Ask { id, fields } => NextView::Ask { id: id@, fields: pulse::form(fields@) },
        }
    }
}

/// What is printed, what is reported as an error, and how the run goes on.
pub struct SendAction {
    pub out: String,
    pub err: Option<String>,
    pub next: Next,
}

pub struct SendActionView {
    pub out: Seq<char>,
    pub err: Option<Seq<char>>,
    pub next: NextView,
}

impl View for SendAction {
    type V = SendActionView;

    open spec fn view(&self) -> SendActionView {
        SendActionView { out: self.out@, err: text::opt_view(self.err), next: self.next@ }
    }
}

/// The end of a line that is not complete.
pub open spec fn line_end(s: SendView) -> Seq<char> {
    if !s.json_mode && s.needs_newline {
        "\n"@
    } else {
        Seq::empty()
    }
}

/// Something is printed and the run goes on.
pub open spec fn printed(out: Seq<char>) -> SendActionView {
    SendActionView { out, err: None, next: NextView::Continue }
}

/// Text of the reply: collected for the report, or printed as it comes.
pub open spec fn text_taken(s: SendView, t: Option<Seq<char>>) -> (SendView, SendActionView) {
    match t {
        None => (s, printed(Seq::empty())),
        Some(x) => if s.json_mode {
            (SendView { said: s.said + x, ..s }, printed(Seq::empty()))
        } else {
            (SendView { needs_newline: !text::ends_with(x, "\n"@), ..s }, printed(x))
        },
    }
}

/// A line of its own; the report does not have it.
pub open spec fn line_taken(s: SendView, line: Seq<char>) -> (SendView, SendActionView) {
    if s.json_mode {
        (s, printed(Seq::empty()))
    } else {
        (SendView { needs_newline: false, ..s }, printed(line_end(s) + line + "\n"@))
    }
}

/// The last call of that name that is still running is over.
pub open spec fn call_over(
    v: Seq<CallView>,
    name: Seq<char>,
    status: CallStatus,
    note: Seq<char>,
) -> Seq<CallView>
    decreases v.len(),
{
    if v.len() == 0 {
        v
    } else if v.last().name == name && v.last().status == CallStatus::Running {
        v.drop_last().push(CallView { status, note, ..v.last() })
    } else {
        call_over(v.drop_last(), name, status, note).push(v.last())
    }
}

/// An item of the agent's stream.
pub open spec fn item_taken(s: SendView, i: pulse::ItemView) -> (SendView, SendActionView) {
    let name = text::text_or(i.tool_name, "?"@);
    let detail = text::text_or(i.detail, Seq::empty());
    if i.kind == "token"@ {
        text_taken(s, i.text)
    } else if i.kind == "thinking"@ {
        match i.text {
            Some(t) => line_taken(s, "💭 "@ + t),
            None => (s, printed(Seq::empty())),
        }
    } else if i.kind == "tool_start"@ {
        if s.json_mode {
            (
                SendView {
                    tools: s.tools.push(
                        CallView {
                            name,
                            detail,
                            status: CallStatus::Running,
                            note: Seq::empty(),
                        },
                    ),
                    ..s
                },
                printed(Seq::empty()),
            )
        } else if detail.len() == 0 {
            line_taken(s, "▶ "@ + name)
        } else {
            line_taken(s, "▶ "@ + name + "("@ + detail + ")"@)
        }
    } else if i.kind == "tool_output"@ {
        if s.json_mode {
            (
                SendView { tools: call_over(s.tools, name, CallStatus::Done, detail), ..s },
                printed(Seq::empty()),
            )
        } else if detail.len() == 0 {
            (SendView { needs_newline: false, ..s }, printed(line_end(s)))
        } else {
            line_taken(s, "◀ "@ + name + ": "@ + detail)
        }
    } else if i.kind == "tool_failed"@ {
        let why = text::text_or(i.detail, "error"@);
        if s.json_mode {
            (
                SendView { tools: call_over(s.tools, name, CallStatus::Failed, why), ..s },
                printed(Seq::empty()),
            )
        } else {
            line_taken(s, "✗ "@ + name + ": "@ + why)
        }
    } else if i.kind == "note"@ || i.kind == "system"@ {
        match i.text {
            Some(t) => line_taken(s, "ℹ "@ + t),
            None => (s, printed(Seq::empty())),
        }
    } else {
        text_taken(s, i.text)
    }
}

/// The run fails.
pub open spec fn failed(
    s: SendView,
    status: RunStatus,
    reported: Seq<char>,
    shown: Seq<char>,
    error: Seq<char>,
) -> (SendView, SendActionView) {
    (
        SendView {
            status,
            error: Some(reported),
            needs_newline: if s.json_mode {
                s.needs_newline
            } else {
                false
            },
            ..s
        },
        SendActionView {
            out: line_end(s),
            err: if s.json_mode {
                None
            } else {
                Some(shown)
            },
            next: NextView::Fail(error),
        },
    )
}

/// The time limit as the errors say it.
pub open spec fn limit_text(secs: u64) -> Seq<char> {
    "timed out after "@ + digits::dec(secs as nat) + "s"@
}

/// The run after one event, and what to do.
pub open spec fn send_stepped(s: SendView, e: SendEventView) -> (SendView, SendActionView) {
    match e {
        SendEventView::TimedOut => failed(
            s,
            RunStatus::Timeout,
            limit_text(s.timeout),
            "error: "@ + limit_text(s.timeout),
            limit_text(s.timeout),
        ),
        SendEventView::Closed => (
            s,
            SendActionView { out: line_end(s), err: None, next: NextView::Done },
        ),
        SendEventView::Event(ev) => match ev {
            pulse::EventView::RunFinished(_) => (
                s,
                SendActionView { out: line_end(s), err: None, next: NextView::Done },
            ),
            pulse::EventView::Stream(i) => item_taken(s, i),
            pulse::EventView::Error(w) => failed(
                s,
                RunStatus::Error,
                w,
                "error: "@ + w,
                "agent error: "@ + w,
            ),
            pulse::EventView::Interrupt { id, title, message, fields } => if s.non_interactive {
                failed(
                    s,
                    RunStatus::Interrupted,
                    "agent requested human input: "@ + title,
                    "error: agent requested human input ("@ + title
                        + ") — re-run interactively or suppress with --non-interactive"@,
                    "agent requested human input in non-interactive mode: "@ + title,
                )
            } else {
                (
                    SendView {
                        needs_newline: if s.json_mode {
                            s.needs_newline
                        } else {
                            false
                        },
                        ..s
                    },
                    SendActionView {
                        out: if s.json_mode {
                            Seq::empty()
                        } else {
                            line_end(s) + "\n[interrupt] "@ + title + "\n"@ + (if message.len() == 0 {
                                Seq::empty()
                            } else {
                                message + "\n"@
                            })
                        },
                        err: None,
                        next: NextView::Ask { id, fields },
                    },
                )
            },
            _ => (s, printed(Seq::empty())),
        },
    }
}

fn print(out: String) -> (r: SendAction)
    ensures
        r@ == printed(out@),
{
    SendAction { out, err: None, next: Next::Continue }
}

fn limit_string(secs: u64) -> (r: String)
    ensures
        r@ == limit_text(secs),
{
    let mut s = "timed out after ".to_owned();
    let n = digits::u64_to_string(secs);
    s.push_str(&n);
    s.push_str("s");
    s
}

fn with_prefix(prefix: &str, t: &str) -> (r: String)
    ensures
        r@ == prefix@ + t@,
{
    let mut s = prefix.to_owned();
    s.push_str(t);
    s
}

impl SendRun {
    /// A message was sent.
    pub fn new(json_mode: bool, non_interactive: bool, timeout: u64) -> (r: SendRun)
        ensures
            r@ == (SendView {
                json_mode,
                non_interactive,
                timeout,
                needs_newline: false,
                said: Seq::empty(),
                tools: Seq::empty(),
                status: RunStatus::Success,
                error: None,
            }),
    {
        let s = SendRun {
            json_mode,
            non_interactive,
            timeout,
            needs_newline: false,
            said: String::new(),
            tools: Vec::new(),
            status: RunStatus::Success,
            error: None,
        };
        assert(s@.tools =~= Seq::empty());
        s
    }

    fn end_line(&self) -> (r: String)
        ensures
            r@ == line_end(self@),
    {
        if !self.json_mode && self.needs_newline {
            "\n".to_owned()
        } else {
            String::new()
        }
    }

    fn take_text(&mut self, t: &Option<String>) -> (r: SendAction)
        ensures
            (final(self)@, r@) == text_taken(old(self)@, text::opt_view(*t)),
    {
        match t {
            None => print(String::new()),
            Some(x) => {
                if self.json_mode {
                    self.said.push_str(x);
                    print(String::new())
                } else {
                    self.needs_newline = !text::str_ends_with(x, "\n");
                    print(x.clone())
                }
            },
        }
    }

    fn take_line(&mut self, line: &str) -> (r: SendAction)
        ensures
            (final(self)@, r@) == line_taken(old(self)@, line@),
    {
        if self.json_mode {
            return print(String::new());
        }
        let mut out = self.end_line();
        self.needs_newline = false;
        out.push_str(line);
        out.push_str("\n");
        print(out)
    }

    fn end_call(&mut self, name: &str, status: CallStatus, note: &str)
        ensures
            final(self)@ == (SendView {
                tools: call_over(old(self)@.tools, name@, status, note@),
                ..old(self)@
            }),
    {
        let ghost start = self@;
        let mut n: usize = self.tools.len();
        assert(start.tools.take(n as int) =~= start.tools);
        assert(call_over(start.tools, name@, status, note@) =~= call_over(
            start.tools.take(n as int),
            name@,
            status,
            note@,
        ) + start.tools.skip(n as int));
        while n > 0
            invariant
                n <= self.tools@.len(),
                self@ == start,
                start == old(self)@,
                call_over(start.tools, name@, status, note@) == call_over(
                    start.tools.take(n as int),
                    name@,
                    status,
                    note@,
                ) + start.tools.skip(n as int),
            decreases n,
        {
            let ghost pre = start.tools.take(n as int);
            assert(pre.last() == self.tools@[n - 1]@);
            assert(pre.drop_last() =~= start.tools.take(n - 1));
            if text::str_eq(&self.tools[n - 1].name, name) && self.tools[n - 1].status
                == CallStatus::Running {
                let c = ToolCall {
                    name: self.tools[n - 1].name.clone(),
                    detail: self.tools[n - 1].detail.clone(),
                    status,
                    note: note.to_owned(),
                };
                self.tools.set(n - 1, c);
                proof {
                    assert(self@.tools =~= start.tools.update(n - 1, c@));
                    assert(self@.tools =~= pre.drop_last().push(c@) + start.tools.skip(n as int));
                }
                return;
            }
            proof {
                assert(call_over(pre.drop_last(), name@, status, note@).push(pre.last())
                    + start.tools.skip(n as int) =~= call_over(
                    start.tools.take(n - 1),
                    name@,
                    status,
                    note@,
                ) + start.tools.skip(n - 1));
            }
            n -= 1;
        }
        assert(call_over(start.tools, name@, status, note@) =~= start.tools);
    }

    fn take_item(&mut self, i: &StreamItem) -> (r: SendAction)
        ensures
            (final(self)@, r@) == item_taken(old(self)@, i@),
    {
        let name = text::opt_or(&i.tool_name, "?");
        let detail = match &i.detail {
            Some(d) => d.clone(),
            None => String::new(),
        };
        if text::str_eq(&i.kind, "token") {
            self.take_text(&i.text)
        } else if text::str_eq(&i.kind, "thinking") {
            match &i.text {
                Some(t) => {
                    let l = with_prefix("💭 ", t);
                    self.take_line(&l)
                },
                None => print(String::new()),
            }
        } else if text::str_eq(&i.kind, "tool_start") {
            if self.json_mode {
                let c = ToolCall {
                    name,
                    detail,
                    status: CallStatus::Running,
                    note: String::new(),
                };
                let ghost before = self.tools@;
                self.tools.push(c);
                assert(calls(self.tools@) =~= calls(before).push(c@));
                print(String::new())
            } else {
                let mut l = with_prefix("▶ ", &name);
                if text::char_count(&detail) > 0 {
                    l.push_str("(");
                    l.push_str(&detail);
                    l.push_str(")");
                }
                self.take_line(&l)
            }
        } else if text::str_eq(&i.kind, "tool_output") {
            if self.json_mode {
                self.end_call(&name, CallStatus::Done, &detail);
                print(String::new())
            } else if text::char_count(&detail) == 0 {
                let out = self.end_line();
                self.needs_newline = false;
                print(out)
            } else {
                let mut l = with_prefix("◀ ", &name);
                l.push_str(": ");
                l.push_str(&detail);
                self.take_line(&l)
            }
        } else if text::str_eq(&i.kind, "tool_failed") {
            let why = text::opt_or(&i.detail, "error");
            if self.json_mode {
                self.end_call(&name, CallStatus::Failed, &why);
                print(String::new())
            } else {
                let mut l = with_prefix("✗ ", &name);
                l.push_str(": ");
                l.push_str(&why);
                self.take_line(&l)
            }
        } else if text::str_eq(&i.kind, "note") || text::str_eq(&i.kind, "system") {
            match &i.text {
                Some(t) => {
                    let l = with_prefix("ℹ ", t);
                    self.take_line(&l)
                },
                None => print(String::new()),
            }
        } else {
            self.take_text(&i.text)
        }
    }

    fn fail(&mut self, status: RunStatus, reported: String, shown: String, error: String) -> (r:
        SendAction)
        ensures
            (final(self)@, r@) == failed(old(self)@, status, reported@, shown@, error@),
    {
        let out = self.end_line();
        self.status = status;
        self.error = Some(reported);
        let err = if self.json_mode {
            None
        } else {
            self.needs_newline = false;
            Some(shown)
        };
        SendAction { out, err, next: Next::Fail(error) }
    }

    /// Takes one event and says what to do.
    pub fn step(&mut self, e: SendEvent) -> (r: SendAction)
        ensures
            (final(self)@, r@) == send_stepped(old(self)@, e@),
    {
        match e {
            SendEvent::TimedOut => {
                let t = limit_string(self.timeout);
                let shown = with_prefix("error: ", &t);
                self.fail(RunStatus::Timeout, t.clone(), shown, t)
            },
            SendEvent::Closed => {
                let out = self.end_line();
                SendAction { out, err: None, next: Next::Done }
            },
            SendEvent::Event(ev) => match ev {
                AppEvent::RunFinished(_) => {
                    let out = self.end_line();
                    SendAction { out, err: None, next: Next::Done }
                },
                AppEvent::Stream(i) => self.take_item(&i),
                AppEvent::Error(w) => {
                    let shown = with_prefix("error: ", &w);
                    let error = with_prefix("agent error: ", &w);
                    self.fail(RunStatus::Error, w, shown, error)
                },
                AppEvent::Interrupt { id, title, message, fields } => {
                    if self.non_interactive {
                        let reported = with_prefix("agent requested human input: ", &title);
                        let mut shown = with_prefix(
                            "error: agent requested human input (",
                            &title,
                        );
                        shown.push_str(
                            ") — re-run interactively or suppress with --non-interactive",
                        );
                        let error = with_prefix(
                            "agent requested human input in non-interactive mode: ",
                            &title,
                        );
                        self.fail(RunStatus::Interrupted, reported, shown, error)
                    } else {
                        let mut out = String::new();
                        if !self.json_mode {
                            out = self.end_line();
                            self.needs_newline = false;
                            out.push_str("\n[interrupt] ");
                            out.push_str(&title);
                            out.push_str("\n");
                            let ghost head = out@;
                            if text::char_count(&message) > 0 {
                                let mut m = message;
                                m.push_str("\n");
                                out.push_str(&m);
                            } else {
                                assert(head + Seq::<char>::empty() =~= head);
                            }
                        }
                        SendAction { out, err: None, next: Next::Ask { id, fields } }
                    }
                },
                _ => print(String::new()),
            },
        }
    }
}

// ---- the report ----------------------------------------------------------------------------

/// A call as the report has it.
pub open spec fn call_value(c: CallView) -> json::JsonView {
    let base = json::no_entries()
        .push(("name"@, json::JsonView::Str(c.name)))
        .push(
            (
                "status"@,
                json::JsonView::Str(
                    match c.status {
                        CallStatus::Running => "running"@,
                        CallStatus::Done => "done"@,
                        CallStatus::Failed => "failed"@,
                    },
                ),
            ),
        )
        .push(("detail"@, json::JsonView::Str(c.detail)));
    json::JsonView::Obj(
        match c.status {
            CallStatus::Running => base,
            CallStatus::Done => base.push(("output"@, json::JsonView::Str(c.note))),
            CallStatus::Failed => base.push(("error"@, json::JsonView::Str(c.note))),
        },
    )
}

pub open spec fn status_word(s: RunStatus) -> Seq<char> {
    match s {
        RunStatus::Success => "success"@,
        RunStatus::Timeout => "timeout"@,
        RunStatus::Error => "error"@,
        RunStatus::Interrupted => "interrupted"@,
    }
}

/// The report of a run.
pub open spec fn send_report(
    s: SendView,
    thread: Seq<char>,
    workspace: Option<Seq<char>>,
) -> json::JsonView {
    json::JsonView::Obj(
        json::no_entries()
            .push(("thread_id"@, json::JsonView::Str(thread)))
            .push(("workspace_id"@, json::text_or_null(workspace)))
            .push(("status"@, json::JsonView::Str(status_word(s.status))))
            .push(("text"@, json::JsonView::Str(s.said)))
            .push(
                ("tools"@, json::JsonView::Arr(s.tools.map_values(|c: CallView| call_value(c)))),
            )
            .push(("error"@, json::text_or_null(s.error))),
    )
}

fn call_json(c: &ToolCall) -> (r: Json)
    ensures
        r@ == call_value(c@),
{
    let mut o = json::no_fields();
    json::put_text(&mut o, "name", &c.name);
    json::put_text(
        &mut o,
        "status",
        match c.status {
            CallStatus::Running => "running",
            CallStatus::Done => "done",
            CallStatus::Failed => "failed",
        },
    );
    json::put_text(&mut o, "detail", &c.detail);
    match c.status {
        CallStatus::Running => {},
        CallStatus::Done => {
            json::put_text(&mut o, "output", &c.note);
        },
        CallStatus::Failed => {
            json::put_text(&mut o, "error", &c.note);
        },
    }
    Json::Obj(o)
}

impl SendRun {
    /// The text of the report.
    pub fn report(&self, thread: &str, workspace: &Option<String>) -> (r: String)
        ensures
            r@ == json::pretty_text(
                json::normal(send_report(self@, thread@, text::opt_view(*workspace))),
            ),
    {
        let ghost all = self@.tools;
        let ghost want = all.map_values(|c: CallView| call_value(c));
        let mut list: Vec<Json> = Vec::new();
        assert(want.take(0) =~= Seq::empty());
        let mut i: usize = 0;
        while i < self.tools.len()
            invariant
                i <= self.tools@.len(),
                all == self@.tools,
                want == all.map_values(|c: CallView| call_value(c)),
                json::values(list@) == want.take(i as int),
            decreases self.tools@.len() - i,
        {
            assert(all[i as int] == self.tools@[i as int]@);
            let j = call_json(&self.tools[i]);
            list.push(j);
            assert(want.take(i + 1) =~= want.take(i as int).push(want[i as int]));
            i += 1;
        }
        assert(want.take(want.len() as int) =~= want);
        let mut o = json::no_fields();
        json::put_text(&mut o, "thread_id", thread);
        json::put_opt(&mut o, "workspace_id", workspace);
        json::put_text(
            &mut o,
            "status",
            match self.status {
                RunStatus::Success => "success",
                RunStatus::Timeout => "timeout",
                RunStatus::Error => "error",
                RunStatus::Interrupted => "interrupted",
            },
        );
        json::put_text(&mut o, "text", &self.said);
        json::put(&mut o, "tools", Json::Arr(list));
        json::put_opt(&mut o, "error", &self.error);
        json::to_pretty_text(&Json::Obj(o))
    }
}

// ---- before and after ------------------------------------------------------------------------

/// The title of the thread: the one that was given, else the beginning of the
/// message.
pub fn thread_title(title: &Option<String>, message: &str) -> (r: String)
    ensures
        r@ == text::text_or(text::opt_view(*title), text::truncated(message@, 60)),
{
    match title {
        Some(t) => t.clone(),
        None => text::truncate(message, 60),
    }
}

/// The lines of the findings at or above a rank, among the first `n`.
pub open spec fn gate_lines(v: Seq<sarif::FindingView>, least: u8, n: int) -> Seq<char>
    decreases n,
{
    if n <= 0 {
        Seq::empty()
    } else {
        gate_lines(v, least, n - 1) + (if severity::level(v[n - 1].severity_label) >= least {
            "  ["@ + v[n - 1].severity_label + "] "@ + v[n - 1].title + "\n"@
        } else {
            Seq::empty()
        })
    }
}

/// Why a build fails on findings: what is shown, and the error.
pub open spec fn findings_gate(v: Seq<sarif::FindingView>, threshold: Seq<char>) -> Option<
    (Seq<char>, Seq<char>),
> {
    let n = severity::blocking::<Finding>(v, threshold);
    if n == 0 {
        None
    } else {
        Some(
            (
                "findings: "@ + digits::dec(n) + " finding(s) at or above '"@ + threshold
                    + "' severity\n"@ + gate_lines(v, severity::level(threshold), v.len() as int),
                digits::dec(n) + " finding(s) at or above '"@ + threshold
                    + "' severity — failing build"@,
            ),
        )
    }
}

pub open spec fn two_texts(p: Option<(String, String)>) -> Option<(Seq<char>, Seq<char>)> {
    match p {
        Some(q) => Some((q.0@, q.1@)),
        None => None,
    }
}

/// Why a build fails on findings, where it does.
pub fn check_findings(v: &Vec<Finding>, threshold: &str) -> (r: Option<(String, String)>)
    ensures
        two_texts(r) == findings_gate(severity::seen(v@), threshold@),
{
    let n = severity::count_blocking(v, threshold);
    if n == 0 {
        return None;
    }
    let least = severity::severity_level(threshold);
    let ghost all = severity::seen(v@);
    let mut lines = String::new();
    let mut i: usize = 0;
    while i < v.len()
        invariant
            i <= v@.len(),
            all == severity::seen(v@),
            least == severity::level(threshold@),
            lines@ == gate_lines(all, least, i as int),
        decreases v@.len() - i,
    {
        assert(all[i as int] == v@[i as int]@);
        let ghost before = lines@;
        if severity::severity_level(&v[i].severity_label) >= least {
            let mut l = "  [".to_owned();
            l.push_str(&v[i].severity_label);
            l.push_str("] ");
            l.push_str(&v[i].title);
            l.push_str("\n");
            lines.push_str(&l);
        } else {
            assert(before + Seq::<char>::empty() =~= before);
        }
        i += 1;
    }
    let d = digits::usize_to_string(n);
    let mut shown = "findings: ".to_owned();
    shown.push_str(&d);
    shown.push_str(" finding(s) at or above '");
    shown.push_str(threshold);
    shown.push_str("' severity\n");
    shown.push_str(&lines);
    let mut error = d;
    error.push_str(" finding(s) at or above '");
    error.push_str(threshold);
    error.push_str("' severity — failing build");
    Some((shown, error))
}

/// In JSON mode nothing is printed before the report, whatever comes.
pub proof fn json_mode_prints_nothing(s: SendView, e: SendEventView)
    requires
        s.json_mode,
    ensures
        send_stepped(s, e).1.out == Seq::<char>::empty(),
        send_stepped(s, e).1.err is None,
        send_stepped(s, e).0.json_mode,
{
}

/// A run that cannot ask never asks: it fails instead.
pub proof fn non_interactive_never_asks(s: SendView, e: SendEventView)
    requires
        s.non_interactive,
    ensures
        !(send_stepped(s, e).1.next is Ask),
        send_stepped(s, e).0.non_interactive,
{
}

} // verus!
