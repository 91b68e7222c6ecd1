//! The state of a chat session: transcript, message box, overlays, tasks.

use vstd::prelude::*;
use crate::api::SlashCmd;
use crate::blocks;
use crate::digits;
use crate::markdown;
use crate::pieces;
use crate::pulse;
use crate::pulse::{AppEvent, Field, StreamItem};
use crate::style;
use crate::style::{Color, Line, Style};
use crate::text;
pub use crate::blocks::{
    Answer, Block, Overlay, OverlayItem, OverlayKind, Pending, Stream, Task, TaskStatus, ToolStatus,
};

verus! {

broadcast use {
    vstd::seq::group_seq_axioms,
    vstd::string::group_string_axioms,
    blocks::group_blocks,
    style::group_styled,
    text::views_push,
    text::views_empty,
};

/// The state of a chat session. Times are nanoseconds on a clock of the
/// caller's that never goes back.
pub struct App {
    pub blocks: Vec<Block>,
    pub stream: Option<Stream>,
    pub input: String,
    /// The bytes of `input` before the edit cursor.
    pub input_cursor: usize,
    pub status: String,
    pub connected: bool,
    pub running: bool,
    pub show_thinking: bool,
    pub markdown: bool,
    pub scroll: u16,
    pub max_scroll: u16,
    pub follow: bool,
    /// The view stays where it is while output arrives.
    pub pinned: bool,
    pub thread_id: String,
    pub title: String,
    pub base: String,
    pub pending: Option<Pending>,
    pub last_task: Option<String>,
    pub last_tool: Option<String>,
    pub overlay: Option<Overlay>,
    pub has_workspace: bool,
    pub workspace_name: Option<String>,
    pub task_label: Option<String>,
    pub auth_line: String,
    pub spinner: usize,
    /// When the current turn began.
    pub run_started: Option<u64>,
    /// How long the last complete turn took.
    pub last_elapsed: Option<u64>,
    pub slash_commands: Vec<SlashCmd>,
    pub slash_sel: usize,
    pub run_tokens: i64,
    pub session_tokens: i64,
    pub thread_tokens: i64,
    pub current_model: Option<i64>,
    pub tasks: Vec<Task>,
    pub select_mode: bool,
    /// The models on offer and their labels.
    pub models: Vec<(i64, String)>,
}

pub struct AppView {
    pub blocks: Seq<blocks::BlockView>,
    pub stream: Option<blocks::StreamView>,
    pub input: Seq<char>,
    pub input_cursor: usize,
    pub status: Seq<char>,
    pub connected: bool,
    pub running: bool,
    pub show_thinking: bool,
    pub markdown: bool,
    pub scroll: u16,
    pub max_scroll: u16,
    pub follow: bool,
    pub pinned: bool,
    pub thread_id: Seq<char>,
    pub title: Seq<char>,
    pub base: Seq<char>,
    pub pending: Option<blocks::PendingView>,
    pub last_task: Option<Seq<char>>,
    pub last_tool: Option<Seq<char>>,
    pub overlay: Option<blocks::OverlayView>,
    pub has_workspace: bool,
    pub workspace_name: Option<Seq<char>>,
    pub task_label: Option<Seq<char>>,
    pub auth_line: Seq<char>,
    pub spinner: usize,
    pub run_started: Option<u64>,
    pub last_elapsed: Option<u64>,
    pub slash_commands: Seq<blocks::SlashView>,
    pub slash_sel: usize,
    pub run_tokens: i64,
    pub session_tokens: i64,
    pub thread_tokens: i64,
    pub current_model: Option<i64>,
    pub tasks: Seq<blocks::TaskView>,
    pub select_mode: bool,
    pub models: Seq<(i64, Seq<char>)>,
}

impl View for App {
    type V = AppView;

    open spec fn view(&self) -> AppView {
        AppView {
            blocks: blocks::blocks(self.blocks@),
            stream: blocks::stream_view(self.stream),
            input: self.input@,
            input_cursor: self.input_cursor,
            status: self.status@,
            connected: self.connected,
            running: self.running,
            show_thinking: self.show_thinking,
            markdown: self.markdown,
            scroll: self.scroll,
            max_scroll: self.max_scroll,
            follow: self.follow,
            pinned: self.pinned,
            thread_id: self.thread_id@,
            title: self.title@,
            base: self.base@,
            pending: blocks::pending_view(self.pending),
            last_task: text::opt_view(self.last_task),
            last_tool: text::opt_view(self.last_tool),
            overlay: blocks::overlay_view(self.overlay),
            has_workspace: self.has_workspace,
            workspace_name: text::opt_view(self.workspace_name),
            task_label: text::opt_view(self.task_label),
            auth_line: self.auth_line@,
            spinner: self.spinner,
            run_started: self.run_started,
            last_elapsed: self.last_elapsed,
            slash_commands: blocks::slash_list(self.slash_commands@),
            slash_sel: self.slash_sel,
            run_tokens: self.run_tokens,
            session_tokens: self.session_tokens,
            thread_tokens: self.thread_tokens,
            current_model: self.current_model,
            tasks: blocks::tasks(self.tasks@),
            select_mode: self.select_mode,
            models: crate::api::labels(self.models@),
        }
    }
}

// ---- model of the transcript -------------------------------------------------------

/// A plain line at the end of the transcript.
pub open spec fn with_plain(s: AppView, content: Seq<char>, look: Style) -> AppView {
    AppView {
        blocks: s.blocks.push(blocks::BlockView::Plain(seq![style::styled(content, look)])),
        ..s
    }
}

/// An assistant message at the end of the transcript: joined to the message
/// before it where that is from the same agent, dropped where it is blank.
pub open spec fn assistant_pushed(s: AppView, agent: Seq<char>, md: Seq<char>) -> AppView {
    if pieces::is_blank(md) {
        s
    } else {
        match s.blocks.last() {
            blocks::BlockView::Assistant { agent: a, md: m } if s.blocks.len() > 0 && a == agent => AppView {
                blocks: s.blocks.drop_last().push(
                    blocks::BlockView::Assistant { agent: a, md: m + "\n\n"@ + md },
                ),
                follow: true,
                ..s
            },
            _ => AppView {
                blocks: s.blocks.push(blocks::BlockView::Assistant { agent, md }),
                last_task: None,
                last_tool: None,
                follow: true,
                ..s
            },
        }
    }
}

/// The thought is the one that the transcript ends with, up to white space.
pub open spec fn repeats_thought(b: Seq<blocks::BlockView>, t: Seq<char>) -> bool {
    b.len() > 0 && (b.last() matches blocks::BlockView::Thinking(prev) && pieces::trim(prev)
        == pieces::trim(t))
}

/// What was being received becomes an entry of the transcript.
pub open spec fn flushed(s: AppView) -> AppView {
    match s.stream {
        None => s,
        Some(st) => {
            let t = AppView { stream: None, ..s };
            if st.thinking {
                if pieces::is_blank(st.buf) || repeats_thought(s.blocks, st.buf) {
                    t
                } else {
                    AppView { blocks: t.blocks.push(blocks::BlockView::Thinking(st.buf)), ..t }
                }
            } else {
                assistant_pushed(t, st.agent, st.buf)
            }
        },
    }
}

/// A thought at the end of the transcript, unless it is blank or repeated.
pub open spec fn thinking_pushed(s: AppView, t: Seq<char>) -> AppView {
    if pieces::is_blank(t) || repeats_thought(s.blocks, t) {
        s
    } else {
        let f = flushed(s);
        AppView { blocks: f.blocks.push(blocks::BlockView::Thinking(t)), last_task: None, ..f }
    }
}

/// A dim system line.
pub open spec fn system_line(s: AppView, content: Seq<char>) -> AppView {
    with_plain(flushed(s), content, style::colored(Color::DarkGray))
}

/// A line that ends the run of tool and task lines before it.
pub open spec fn line_pushed(s: AppView, content: Seq<char>, look: Style) -> AppView {
    AppView {
        last_task: None,
        last_tool: None,
        follow: true,
        ..with_plain(flushed(s), content, look)
    }
}

/// An informational line.
pub open spec fn noticed(s: AppView, t: Seq<char>) -> AppView {
    line_pushed(s, "  · "@ + t, style::colored(Color::Cyan))
}

/// A separator with a label.
pub open spec fn ruled(s: AppView, label: Seq<char>) -> AppView {
    let f = flushed(s);
    AppView {
        blocks: f.blocks.push(blocks::BlockView::Rule(label)),
        last_task: None,
        last_tool: None,
        follow: true,
        ..f
    }
}

/// A message of the user, sent at time `now`.
pub open spec fn user_echoed(s: AppView, t: Seq<char>, now: u64) -> AppView {
    let f = flushed(s);
    AppView {
        blocks: f.blocks.push(blocks::BlockView::User(t)),
        last_task: None,
        last_tool: None,
        follow: true,
        pinned: false,
        run_started: Some(now),
        last_elapsed: None,
        ..f
    }
}

/// More text of a reply: it continues one of its kind, or begins a new one.
pub open spec fn fed(s: AppView, agent: Option<Seq<char>>, t: Seq<char>, thinking: bool) -> AppView {
    match s.stream {
        Some(st) if st.thinking == thinking => AppView {
            stream: Some(blocks::StreamView { buf: st.buf + t, ..st }),
            follow: true,
            ..s
        },
        _ => AppView {
            stream: Some(
                blocks::StreamView { thinking, agent: text::text_or(agent, "agent"@), buf: t },
            ),
            follow: true,
            ..flushed(s)
        },
    }
}

/// A tool that is still running counts as done.
pub open spec fn settled(b: blocks::BlockView) -> blocks::BlockView {
    match b {
        blocks::BlockView::Tool { name, detail, status } if status == ToolStatus::Running => {
            blocks::BlockView::Tool { name, detail, status: ToolStatus::Done }
        },
        _ => b,
    }
}

/// Every tool that is still running counts as done.
pub open spec fn all_settled(s: AppView) -> AppView {
    AppView { blocks: s.blocks.map_values(|b: blocks::BlockView| settled(b)), ..s }
}

/// The last tool that is still running is finished.
pub open spec fn last_tool_finished(b: Seq<blocks::BlockView>, ok: bool) -> Seq<blocks::BlockView>
    decreases b.len(),
{
    if b.len() == 0 {
        b
    } else {
        match b.last() {
            blocks::BlockView::Tool { name, detail, status } if status == ToolStatus::Running => {
                b.drop_last().push(
                    blocks::BlockView::Tool {
                        name,
                        detail,
                        status: if ok {
                            ToolStatus::Done
                        } else {
                            ToolStatus::Failed
                        },
                    },
                )
            },
            _ => last_tool_finished(b.drop_last(), ok).push(b.last()),
        }
    }
}

pub open spec fn tool_finished(s: AppView, ok: bool) -> AppView {
    AppView { blocks: last_tool_finished(s.blocks, ok), ..s }
}

// ---- mutation of the transcript ------------------------------------------------------

/// A span of one text as a block.
fn plain_block(content: String, look: Style) -> (r: Block)
    ensures
        r@ == blocks::BlockView::Plain(seq![style::styled(content@, look)]),
{
    Block::Plain(Line::of(content, look))
}

impl App {
    /// Appends an assistant message, joined to the one before it where that is
    /// from the same agent.
    pub fn push_assistant(&mut self, agent: String, md: String)
        ensures
            final(self)@ == assistant_pushed(old(self)@, agent@, md@),
    {
        if pieces::str_is_blank(&md) {
            return;
        }
        let n: usize = self.blocks.len();
        let mut joined: Option<(String, String)> = None;
        if n > 0 {
            assert(self@.blocks.last() == self.blocks@[n - 1]@);
            match &self.blocks[n - 1] {
                Block::Assistant { agent: a, md: m } => {
                    if text::str_eq(a, &agent) {
                        let mut t = m.clone();
                        t.push_str("\n\n");
                        t.push_str(&md);
                        joined = Some((a.clone(), t));
                    }
                },
                _ => {},
            }
        }
        match joined {
            Some((a, m)) => {
                let ghost before = self.blocks@;
                let _ = self.blocks.pop();
                assert(blocks::blocks(self.blocks@) =~= blocks::blocks(before).drop_last());
                self.blocks.push(Block::Assistant { agent: a, md: m });
                self.follow = true;
            },
            None => {
                self.blocks.push(Block::Assistant { agent, md });
                self.last_task = None;
                self.last_tool = None;
                self.follow = true;
            },
        }
    }

    fn repeats_last_thought(&self, t: &str) -> (r: bool)
        ensures
            r == repeats_thought(self@.blocks, t@),
    {
        let n: usize = self.blocks.len();
        if n == 0 {
            return false;
        }
        assert(self@.blocks.last() == self.blocks@[n - 1]@);
        match &self.blocks[n - 1] {
            Block::Thinking(prev) => {
                let a = pieces::str_trim(prev);
                let b = pieces::str_trim(t);
                text::str_eq(&a, &b)
            },
            _ => false,
        }
    }

    /// Makes what was being received an entry of the transcript.
    pub fn flush_stream(&mut self)
        ensures
            final(self)@ == flushed(old(self)@),
    {
        let mut taken: Option<Stream> = None;
        std::mem::swap(&mut taken, &mut self.stream);
        match taken {
            None => {},
            Some(st) => {
                if st.thinking {
                    if !pieces::str_is_blank(&st.buf) && !self.repeats_last_thought(&st.buf) {
                        self.blocks.push(Block::Thinking(st.buf));
                    }
                } else {
                    self.push_assistant(st.agent, st.buf);
                }
            },
        }
    }

    /// Appends a thought unless it is blank or repeats the one before it.
    pub fn push_thinking(&mut self, t: String)
        ensures
            final(self)@ == thinking_pushed(old(self)@, t@),
    {
        if pieces::str_is_blank(&t) || self.repeats_last_thought(&t) {
            return;
        }
        self.flush_stream();
        self.blocks.push(Block::Thinking(t));
        self.last_task = None;
    }

    /// Appends a dim system line.
    pub fn sys(&mut self, t: &str)
        ensures
            final(self)@ == system_line(old(self)@, t@),
    {
        self.flush_stream();
        self.blocks.push(plain_block(t.to_owned(), Style::colored(Color::DarkGray)));
    }

    /// Appends a line that ends the run of tool and task lines before it.
    pub fn push(&mut self, content: String, look: Style)
        ensures
            final(self)@ == line_pushed(old(self)@, content@, look),
    {
        self.flush_stream();
        self.blocks.push(plain_block(content, look));
        self.last_task = None;
        self.last_tool = None;
        self.follow = true;
    }

    /// Appends an informational line.
    pub fn notice(&mut self, t: &str)
        ensures
            final(self)@ == noticed(old(self)@, t@),
    {
        let mut s = "  · ".to_owned();
        s.push_str(t);
        self.push(s, Style::colored(Color::Cyan));
    }

    /// Appends a separator with a label.
    pub fn rule(&mut self, label: &str)
        ensures
            final(self)@ == ruled(old(self)@, label@),
    {
        self.flush_stream();
        self.blocks.push(Block::Rule(label.to_owned()));
        self.last_task = None;
        self.last_tool = None;
        self.follow = true;
    }

    /// Appends a message of the user, sent at time `now`, and goes back to the
    /// end of the transcript.
    pub fn echo_user(&mut self, t: &str, now: u64)
        ensures
            final(self)@ == user_echoed(old(self)@, t@, now),
    {
        self.flush_stream();
        self.blocks.push(Block::User(t.to_owned()));
        self.last_task = None;
        self.last_tool = None;
        self.follow = true;
        self.pinned = false;
        self.run_started = Some(now);
        self.last_elapsed = None;
    }

    /// Takes more text of a reply.
    pub fn feed(&mut self, agent: Option<String>, t: String, thinking: bool)
        ensures
            final(self)@ == fed(old(self)@, text::opt_view(agent), t@, thinking),
    {
        let continues = match &self.stream {
            Some(st) => st.thinking == thinking,
            None => false,
        };
        if continues {
            let mut taken: Option<Stream> = None;
            std::mem::swap(&mut taken, &mut self.stream);
            if let Some(st) = taken {
                let mut buf = st.buf;
                buf.push_str(&t);
                self.stream = Some(Stream { thinking: st.thinking, agent: st.agent, buf });
            }
        } else {
            self.flush_stream();
            let who = match agent {
                Some(a) => a,
                None => "agent".to_owned(),
            };
            self.stream = Some(Stream { thinking, agent: who, buf: t });
        }
        self.follow = true;
    }

    /// Counts every tool that is still running as done.
    pub fn settle_running_tools(&mut self)
        ensures
            final(self)@ == all_settled(old(self)@),
    {
        let ghost start = self@;
        let ghost want = self@.blocks.map_values(|b: blocks::BlockView| settled(b));
        let mut i: usize = 0;
        while i < self.blocks.len()
            invariant
                i <= self.blocks@.len(),
                self.blocks@.len() == start.blocks.len(),
                want == start.blocks.map_values(|b: blocks::BlockView| settled(b)),
                self@ == (AppView { blocks: self@.blocks, ..start }),
                forall|k: int| 0 <= k < i ==> (#[trigger] self@.blocks[k]) == want[k],
                forall|k: int| i <= k < self.blocks@.len() ==> (#[trigger] self@.blocks[k]) == start.blocks[k],
            decreases self.blocks@.len() - i,
        {
            let ghost before = self@.blocks;
            assert(before[i as int] == self.blocks@[i as int]@);
            let mut done: Option<Block> = None;
            match &self.blocks[i] {
                Block::Tool { name, detail, status } => {
                    if *status == ToolStatus::Running {
                        done = Some(
                            Block::Tool {
                                name: name.clone(),
                                detail: detail.clone(),
                                status: ToolStatus::Done,
                            },
                        );
                    }
                },
                _ => {},
            }
            if let Some(b) = done {
                self.blocks.set(i, b);
                assert(self@.blocks =~= before.update(i as int, b@));
            }
            i += 1;
        }
        assert(self@.blocks =~= want);
    }

    /// Finishes the last tool that is still running.
    pub fn finish_last_tool(&mut self, ok: bool)
        ensures
            final(self)@ == tool_finished(old(self)@, ok),
    {
        let ghost start = self@;
        let mut n: usize = self.blocks.len();
        assert(start.blocks.take(n as int) =~= start.blocks);
        proof {
            assert(last_tool_finished(start.blocks, ok) =~= last_tool_finished(
                start.blocks.take(n as int),
                ok,
            ) + start.blocks.skip(n as int));
        }
        while n > 0
            invariant
                n <= self.blocks@.len(),
                self@ == start,
                start == old(self)@,
                last_tool_finished(start.blocks, ok) == last_tool_finished(
                    start.blocks.take(n as int),
                    ok,
                ) + start.blocks.skip(n as int),
            decreases n,
        {
            let ghost pre = start.blocks.take(n as int);
            assert(pre.last() == self.blocks@[n - 1]@);
            assert(pre.drop_last() =~= start.blocks.take(n - 1));
            let mut done: Option<Block> = None;
            match &self.blocks[n - 1] {
                Block::Tool { name, detail, status } => {
                    if *status == ToolStatus::Running {
                        done = Some(
                            Block::Tool {
                                name: name.clone(),
                                detail: detail.clone(),
                                status: if ok {
                                    ToolStatus::Done
                                } else {
                                    ToolStatus::Failed
                                },
                            },
                        );
                    }
                },
                _ => {},
            }
            match done {
                Some(b) => {
                    self.blocks.set(n - 1, b);
                    proof {
                        assert(self@.blocks =~= start.blocks.update(n - 1, b@));
                        assert(self@.blocks =~= pre.drop_last().push(b@) + start.blocks.skip(n as int));
                    }
                    return;
                },
                None => {
                    proof {
                        assert(last_tool_finished(pre.drop_last(), ok).push(pre.last()) + start.blocks.skip(
                            n as int,
                        ) =~= last_tool_finished(start.blocks.take(n - 1), ok) + start.blocks.skip(n - 1));
                    }
                },
            }
            n -= 1;
        }
        assert(last_tool_finished(start.blocks, ok) =~= start.blocks);
    }
}

// ---- tasks -----------------------------------------------------------------------------

/// The status that a stream or event word stands for.
pub open spec fn status_of(word: Option<Seq<char>>, running: Seq<char>) -> TaskStatus {
    if word == Some(running) {
        TaskStatus::Running
    } else if word == Some("completed"@) {
        TaskStatus::Completed
    } else if word == Some("failed"@) {
        TaskStatus::Failed
    } else {
        TaskStatus::Created
    }
}

/// The position of the first task of that id.
pub open spec fn task_position(t: Seq<blocks::TaskView>, id: Seq<char>, from: int) -> Option<int>
    decreases t.len() - from,
{
    if from < 0 || from >= t.len() {
        None
    } else if t[from].id == id {
        Some(from)
    } else {
        task_position(t, id, from + 1)
    }
}

/// The tasks with one of them brought up to date: a known task takes the new
/// status, and the new title where there is one; an unknown task is added
/// where it has a title.
pub open spec fn task_upserted(
    t: Seq<blocks::TaskView>,
    id: Seq<char>,
    title: Seq<char>,
    titled: bool,
    status: TaskStatus,
    agent: Option<Seq<char>>,
) -> Seq<blocks::TaskView> {
    match task_position(t, id, 0) {
        Some(k) if 0 <= k < t.len() => t.update(
            k,
            blocks::TaskView {
                status,
                title: if titled {
                    title
                } else {
                    t[k].title
                },
                ..t[k]
            },
        ),
        _ => if titled {
            t.push(blocks::TaskView { id, title, status, agent })
        } else {
            t
        },
    }
}

/// The inline mark of a new task.
pub open spec fn task_marked(s: AppView, title: Seq<char>) -> AppView {
    let look = Style {
        fg: Some(Color::Yellow),
        bold: false,
        italic: false,
        dim: true,
        crossed_out: false,
    };
    AppView {
        last_task: Some(title),
        last_tool: None,
        ..with_plain(flushed(s), "◇ "@ + title, look)
    }
}

pub(crate) fn word_status(word: &Option<String>, running: &str) -> (r: TaskStatus)
    ensures
        r == status_of(text::opt_view(*word), running@),
{
    if text::opt_is(word, running) {
        TaskStatus::Running
    } else if text::opt_is(word, "completed") {
        TaskStatus::Completed
    } else if text::opt_is(word, "failed") {
        TaskStatus::Failed
    } else {
        TaskStatus::Created
    }
}

impl App {
    /// Brings one task of the panel up to date.
    pub fn upsert_task(
        &mut self,
        id: &str,
        title: &str,
        titled: bool,
        status: TaskStatus,
        agent: Option<String>,
    )
        ensures
            final(self)@ == (AppView {
                tasks: task_upserted(
                    old(self)@.tasks,
                    id@,
                    title@,
                    titled,
                    status,
                    text::opt_view(agent),
                ),
                ..old(self)@
            }),
    {
        let ghost start = self@;
        let mut k: usize = 0;
        while k < self.tasks.len()
            invariant
                k <= self.tasks@.len(),
                self@ == start,
                start == old(self)@,
                task_position(start.tasks, id@, 0) == task_position(start.tasks, id@, k as int),
            decreases self.tasks@.len() - k,
        {
            assert(start.tasks[k as int] == self.tasks@[k as int]@);
            if text::str_eq(&self.tasks[k].id, id) {
                let t = Task {
                    id: self.tasks[k].id.clone(),
                    title: if titled {
                        title.to_owned()
                    } else {
                        self.tasks[k].title.clone()
                    },
                    status,
                    agent: text::clone_opt(&self.tasks[k].agent),
                };
                let ghost before = self.tasks@;
                self.tasks.set(k, t);
                assert(blocks::tasks(self.tasks@) =~= blocks::tasks(before).update(k as int, t@));
                return;
            }
            k += 1;
        }
        if titled {
            self.tasks.push(Task { id: id.to_owned(), title: title.to_owned(), status, agent });
        }
    }

    pub(crate) fn mark_task(&mut self, title: &str)
        ensures
            final(self)@ == task_marked(old(self)@, title@),
    {
        self.flush_stream();
        let mut s = "◇ ".to_owned();
        s.push_str(title);
        let look = Style {
            fg: Some(Color::Yellow),
            bold: false,
            italic: false,
            dim: true,
            crossed_out: false,
        };
        self.blocks.push(plain_block(s, look));
        self.last_task = Some(title.to_owned());
        self.last_tool = None;
    }
}

// ---- the stream of a run -----------------------------------------------------------------

/// A tool call begins. The same call often comes twice, first without and then
/// with its arguments: the second fills in the first.
pub open spec fn tool_started(s: AppView, name: Seq<char>, detail: Seq<char>) -> AppView {
    let call = blocks::BlockView::Tool { name, detail, status: ToolStatus::Running };
    if s.last_tool == Some(name) {
        match s.blocks.last() {
            blocks::BlockView::Tool { name: n, detail: _, status: st } if s.blocks.len() > 0 => AppView {
                blocks: if detail.len() > 0 {
                    s.blocks.drop_last().push(
                        blocks::BlockView::Tool { name: n, detail, status: st },
                    )
                } else {
                    s.blocks
                },
                follow: true,
                ..s
            },
            _ => AppView { blocks: s.blocks.push(call), follow: true, ..s },
        }
    } else {
        let f = flushed(s);
        AppView {
            blocks: f.blocks.push(call),
            last_task: None,
            last_tool: Some(name),
            follow: true,
            ..f
        }
    }
}

/// The line under a tool call.
pub open spec fn tool_ended(s: AppView, ok: bool, content: Seq<char>) -> AppView {
    let look = if ok {
        style::colored(Color::DarkGray)
    } else {
        style::colored(Color::Red)
    };
    AppView {
        last_tool: None,
        follow: true,
        ..with_plain(tool_finished(flushed(s), ok), content, look)
    }
}

/// The text of a tool result.
pub open spec fn tool_result(detail: Seq<char>, status: Option<Seq<char>>) -> Seq<char> {
    "  ⎿ "@ + (if detail.len() == 0 {
        "(ok)"@
    } else {
        text::truncated(detail, 220)
    }) + (match status {
        Some(w) => "  ·"@ + w,
        None => Seq::empty(),
    })
}

/// A task event: the panel, and a mark in the transcript for a task that was
/// just created.
pub open spec fn task_event(s: AppView, i: pulse::ItemView) -> AppView {
    let title = text::text_or(i.text, Seq::empty());
    let status = status_of(i.status, "started"@);
    let titled = !pieces::is_blank(title);
    let t = match i.task_id {
        Some(id) => AppView {
            tasks: task_upserted(s.tasks, id, title, titled, status, i.agent),
            ..s
        },
        None => s,
    };
    if i.status != Some("pending"@) && status == TaskStatus::Created && titled && t.last_task != Some(
        title,
    ) {
        AppView { task_label: Some(title), follow: true, ..task_marked(t, title) }
    } else {
        t
    }
}

/// A note that is worth showing.
pub open spec fn is_useful_note(t: Seq<char>) -> bool {
    text::starts_with(t, "artifact"@) || text::starts_with(t, "queued"@) || text::contains(
        t,
        "interrupt"@,
    )
}

/// The session after one item of the agent's stream.
pub open spec fn streamed(s: AppView, i: pulse::ItemView) -> AppView {
    let detail = text::text_or(i.detail, Seq::empty());
    if i.kind == "token"@ {
        match i.text {
            Some(t) => fed(s, i.agent, t, false),
            None => s,
        }
    } else if i.kind == "thinking"@ {
        match i.text {
            Some(t) => fed(s, i.agent, t, true),
            None => s,
        }
    } else if i.kind == "tool_start"@ {
        tool_started(s, text::text_or(i.tool_name, Seq::empty()), detail)
    } else if i.kind == "tool_output"@ {
        tool_ended(s, true, tool_result(detail, i.status))
    } else if i.kind == "tool_failed"@ {
        tool_ended(s, false, "  ⎿ ✗ "@ + text::truncated(detail, 220))
    } else if i.kind == "task"@ {
        task_event(s, i)
    } else if i.kind == "approval"@ {
        line_pushed(
            s,
            "  ⚠ approval ("@ + detail + ") "@ + text::text_or(i.text, Seq::empty())
                + " — auto-approved"@,
            style::colored(Color::Yellow),
        )
    } else if i.kind == "note"@ {
        match i.text {
            Some(t) => if is_useful_note(pieces::trim(t)) {
                system_line(s, "· "@ + pieces::trim(t))
            } else {
                s
            },
            None => s,
        }
    } else {
        s
    }
}

impl App {
    fn start_tool(&mut self, name: String, detail: String)
        ensures
            final(self)@ == tool_started(old(self)@, name@, detail@),
    {
        if text::opt_is(&self.last_tool, &name) {
            let n: usize = self.blocks.len();
            let mut known: Option<(String, ToolStatus)> = None;
            if n > 0 {
                assert(self@.blocks.last() == self.blocks@[n - 1]@);
                match &self.blocks[n - 1] {
                    Block::Tool { name: m, detail: _, status } => {
                        known = Some((m.clone(), *status));
                    },
                    _ => {},
                }
            }
            match known {
                Some((m, status)) => {
                    if text::char_count(&detail) > 0 {
                        let ghost before = self.blocks@;
                        let _ = self.blocks.pop();
                        assert(blocks::blocks(self.blocks@) =~= blocks::blocks(before).drop_last());
                        self.blocks.push(Block::Tool { name: m, detail, status });
                    }
                },
                None => {
                    self.blocks.push(Block::Tool { name, detail, status: ToolStatus::Running });
                },
            }
        } else {
            self.flush_stream();
            let kept = name.clone();
            self.blocks.push(Block::Tool { name, detail, status: ToolStatus::Running });
            self.last_task = None;
            self.last_tool = Some(kept);
        }
        self.follow = true;
    }

    fn end_tool(&mut self, ok: bool, content: String)
        ensures
            final(self)@ == tool_ended(old(self)@, ok, content@),
    {
        self.flush_stream();
        self.finish_last_tool(ok);
        let look = if ok {
            Style::colored(Color::DarkGray)
        } else {
            Style::colored(Color::Red)
        };
        self.blocks.push(plain_block(content, look));
        self.last_tool = None;
        self.follow = true;
    }

    fn on_task(&mut self, i: &StreamItem)
        ensures
            final(self)@ == task_event(old(self)@, i@),
    {
        let title = text::opt_or(&i.text, "");
        proof {
            reveal_strlit("");
            assert(""@ =~= Seq::<char>::empty());
        }
        let status = word_status(&i.status, "started");
        let titled = !pieces::str_is_blank(&title);
        if let Some(id) = &i.task_id {
            self.upsert_task(id, &title, titled, status, text::clone_opt(&i.agent));
        }
        if !text::opt_is(&i.status, "pending") && status == TaskStatus::Created && titled
            && !text::opt_is(&self.last_task, &title) {
            self.mark_task(&title);
            self.task_label = Some(title);
            self.follow = true;
        }
    }

    /// Takes one item of the agent's stream.
    pub fn on_stream(&mut self, i: &StreamItem)
        ensures
            final(self)@ == streamed(old(self)@, i@),
    {
        proof {
            reveal_strlit("");
            assert(""@ =~= Seq::<char>::empty());
        }
        let detail = text::opt_or(&i.detail, "");
        if text::str_eq(&i.kind, "token") {
            if let Some(t) = &i.text {
                self.feed(text::clone_opt(&i.agent), t.clone(), false);
            }
        } else if text::str_eq(&i.kind, "thinking") {
            if let Some(t) = &i.text {
                self.feed(text::clone_opt(&i.agent), t.clone(), true);
            }
        } else if text::str_eq(&i.kind, "tool_start") {
            let name = text::opt_or(&i.tool_name, "");
            self.start_tool(name, detail);
        } else if text::str_eq(&i.kind, "tool_output") {
            let mut s = "  ⎿ ".to_owned();
            if text::char_count(&detail) == 0 {
                s.push_str("(ok)");
            } else {
                let t = text::truncate(&detail, 220);
                s.push_str(&t);
            }
            let ghost body = s@;
            if let Some(w) = &i.status {
                let mut m = "  ·".to_owned();
                m.push_str(w);
                s.push_str(&m);
            } else {
                assert(body + Seq::<char>::empty() =~= body);
            }
            self.end_tool(true, s);
        } else if text::str_eq(&i.kind, "tool_failed") {
            let mut s = "  ⎿ ✗ ".to_owned();
            let t = text::truncate(&detail, 220);
            s.push_str(&t);
            self.end_tool(false, s);
        } else if text::str_eq(&i.kind, "task") {
            self.on_task(i);
        } else if text::str_eq(&i.kind, "approval") {
            let mut s = "  ⚠ approval (".to_owned();
            s.push_str(&detail);
            s.push_str(") ");
            let t = text::opt_or(&i.text, "");
            s.push_str(&t);
            s.push_str(" — auto-approved");
            self.push(s, Style::colored(Color::Yellow));
        } else if text::str_eq(&i.kind, "note") {
            if let Some(raw) = &i.text {
                let t = pieces::str_trim(raw);
                if text::str_starts_with(&t, "artifact") || text::str_starts_with(&t, "queued")
                    || text::str_contains(&t, "interrupt") {
                    let mut s = "· ".to_owned();
                    s.push_str(&t);
                    self.sys(&s);
                }
            }
        }
    }
}

// ---- events of the connection --------------------------------------------------------------

/// Nanoseconds of a second.
pub const SECOND: u64 = 1_000_000_000;

/// A time span as `8s`, `1:07` or `12:30`.
pub open spec fn elapsed_text(secs: nat) -> Seq<char> {
    if secs < 60 {
        digits::dec(secs) + "s"@
    } else {
        digits::dec(secs / 60) + ":"@ + digits::dec_padded(secs % 60, 2)
    }
}

/// A time span as `8s`, `1:07` or `12:30`.
pub fn fmt_elapsed(secs: u64) -> (r: String)
    ensures
        r@ == elapsed_text(secs as nat),
{
    if secs < 60 {
        let mut s = digits::u64_to_string(secs);
        s.push_str("s");
        s
    } else {
        let mut s = digits::u64_to_string(secs / 60);
        s.push_str(":");
        let d = digits::u64_to_string(secs % 60);
        let t = digits::str_pad_left(&d, '0', 2);
        s.push_str(&t);
        s
    }
}

/// The time from one reading of the clock to another; none where it went back.
pub open spec fn span(from: u64, to: u64) -> u64 {
    if to >= from {
        (to - from) as u64
    } else {
        0
    }
}

fn time_between(from: u64, to: u64) -> (r: u64)
    ensures
        r == span(from, to),
{
    if to >= from {
        to - from
    } else {
        0
    }
}

/// The run is over: its time is taken and a separator ends it.
pub open spec fn run_finished(s: AppView, label: Seq<char>, now: u64) -> AppView {
    let t = all_settled(AppView { running: false, ..s });
    let took = match s.run_started {
        Some(b) => Some(span(b, now)),
        None => None,
    };
    ruled(
        AppView {
            run_started: None,
            last_elapsed: took,
            status: "idle ("@ + label + ")"@ + (match took {
                Some(d) => " · "@ + elapsed_text((d / SECOND) as nat),
                None => Seq::empty(),
            }),
            ..t
        },
        label,
    )
}

/// The session after one event of the connection, at time `now`.
pub open spec fn after_event(s: AppView, e: pulse::EventView, now: u64) -> AppView {
    match e {
        pulse::EventView::Connected => AppView { connected: true, status: "connected"@, ..s },
        pulse::EventView::Disconnected(why) => AppView {
            status: "disconnected — "@ + why,
            ..all_settled(AppView { connected: false, running: false, ..s })
        },
        pulse::EventView::RunStarted => AppView {
            running: true,
            status: "running…"@,
            run_tokens: 0,
            tasks: Seq::empty(),
            run_started: match s.run_started {
                Some(t) => Some(t),
                None => Some(now),
            },
            ..s
        },
        pulse::EventView::Credits { tokens, final_run } => if final_run {
            AppView {
                session_tokens: s.session_tokens.wrapping_add(tokens),
                thread_tokens: s.thread_tokens.wrapping_add(tokens),
                run_tokens: tokens,
                ..s
            }
        } else {
            AppView { run_tokens: s.run_tokens.wrapping_add(tokens), ..s }
        },
        pulse::EventView::RunFinished(label) => run_finished(s, label, now),
        pulse::EventView::Notice(n) => noticed(s, n),
        pulse::EventView::Error(e) => line_pushed(s, "error: "@ + e, style::bold(Color::Red)),
        pulse::EventView::LocalToolDone { name, ms, exit, err } => match err {
            Some(e) => line_pushed(
                s,
                "  ⎿ ✗ "@ + name + ": "@ + e,
                style::colored(Color::Red),
            ),
            None => match exit {
                Some(code) => if code != 0 {
                    line_pushed(
                        s,
                        "  ⎿ "@ + name + " exit "@ + digits::dec_int(code as int),
                        style::colored(Color::Red),
                    )
                } else {
                    s
                },
                None => s,
            },
        },
        pulse::EventView::Interrupt { id, title, message, fields } => {
            let t = line_pushed(
                AppView { running: false, status: "input needed ⏸"@, ..s },
                "⏸ "@ + title,
                style::bold(Color::Cyan),
            );
            let u = if message.len() > 0 {
                line_pushed(t, "   "@ + message, style::colored(Color::Cyan))
            } else {
                t
            };
            AppView {
                pending: Some(
                    blocks::PendingView { id, fields, idx: 0, answers: Seq::empty() },
                ),
                follow: true,
                ..u
            }
        },
        pulse::EventView::Stream(i) => streamed(s, i),
    }
}

impl App {
    fn finish_run(&mut self, label: &str, now: u64)
        ensures
            final(self)@ == run_finished(old(self)@, label@, now),
    {
        self.running = false;
        self.settle_running_tools();
        let took: Option<u64> = match self.run_started {
            Some(b) => Some(time_between(b, now)),
            None => None,
        };
        self.run_started = None;
        self.last_elapsed = took;
        let mut st = "idle (".to_owned();
        st.push_str(label);
        st.push_str(")");
        let ghost body = st@;
        match took {
            Some(d) => {
                let mut m = " · ".to_owned();
                let t = fmt_elapsed(d / SECOND);
                m.push_str(&t);
                st.push_str(&m);
            },
            None => {
                assert(body + Seq::<char>::empty() =~= body);
            },
        }
        self.status = st;
        self.rule(label);
    }

    fn interrupt(&mut self, id: String, title: &str, message: &str, fields: Vec<Field>, now: u64)
        ensures
            final(self)@ == after_event(
                old(self)@,
                pulse::EventView::Interrupt {
                    id: id@,
                    title: title@,
                    message: message@,
                    fields: pulse::form(fields@),
                },
                now,
            ),
    {
        self.running = false;
        self.status = "input needed ⏸".to_owned();
        let mut t = "⏸ ".to_owned();
        t.push_str(title);
        self.push(t, Style::bold(Color::Cyan));
        if text::char_count(message) > 0 {
            let mut m = "   ".to_owned();
            m.push_str(message);
            self.push(m, Style::colored(Color::Cyan));
        }
        let p = Pending { id, fields, idx: 0, answers: Vec::new() };
        assert(blocks::answers(p.answers@) =~= Seq::empty());
        self.pending = Some(p);
        self.follow = true;
    }

    /// Takes one event of the connection, at time `now`.
    pub fn on_app_event(&mut self, e: AppEvent, now: u64)
        ensures
            final(self)@ == after_event(old(self)@, e@, now),
    {
        match e {
            AppEvent::Connected => {
                self.connected = true;
                self.status = "connected".to_owned();
            },
            AppEvent::Disconnected(why) => {
                self.connected = false;
                self.running = false;
                self.settle_running_tools();
                let mut st = "disconnected — ".to_owned();
                st.push_str(&why);
                self.status = st;
            },
            AppEvent::RunStarted => {
                self.running = true;
                self.status = "running…".to_owned();
                self.run_tokens = 0;
                self.tasks = Vec::new();
                if self.run_started.is_none() {
                    self.run_started = Some(now);
                }
            },
            AppEvent::Credits { tokens, final_run } => {
                if final_run {
                    self.session_tokens = self.session_tokens.wrapping_add(tokens);
                    self.thread_tokens = self.thread_tokens.wrapping_add(tokens);
                    self.run_tokens = tokens;
                } else {
                    self.run_tokens = self.run_tokens.wrapping_add(tokens);
                }
            },
            AppEvent::RunFinished(label) => {
                self.finish_run(&label, now);
            },
            AppEvent::Notice(n) => {
                self.notice(&n);
            },
            AppEvent::Error(e) => {
                let mut s = "error: ".to_owned();
                s.push_str(&e);
                self.push(s, Style::bold(Color::Red));
            },
            AppEvent::LocalToolDone { name, ms, exit, err } => {
                match err {
                    Some(e) => {
                        let mut s = "  ⎿ ✗ ".to_owned();
                        s.push_str(&name);
                        s.push_str(": ");
                        s.push_str(&e);
                        self.push(s, Style::colored(Color::Red));
                    },
                    None => match exit {
                        Some(code) => {
                            if code != 0 {
                                let mut s = "  ⎿ ".to_owned();
                                s.push_str(&name);
                                s.push_str(" exit ");
                                let c = digits::i64_to_string(code as i64);
                                s.push_str(&c);
                                self.push(s, Style::colored(Color::Red));
                            }
                        },
                        None => {},
                    },
                }
            },
            AppEvent::Interrupt { id, title, message, fields } => {
                self.interrupt(id, &title, &message, fields, now);
            },
            AppEvent::Stream(i) => {
                self.on_stream(&i);
            },
        }
    }
}

// ---- forms -------------------------------------------------------------------------------------

/// What a text typed into a field of that type is.
pub open spec fn answer_of(ftype: Seq<char>, t: Seq<char>) -> blocks::AnswerView {
    if ftype == "number"@ {
        blocks::AnswerView::Number(pieces::trim(t))
    } else if ftype == "checkbox"@ {
        let l = text::lowercase(pieces::trim(t));
        blocks::AnswerView::Checked(
            l == "y"@ || l == "yes"@ || l == "true"@ || l == "1"@ || l == "on"@,
        )
    } else {
        blocks::AnswerView::Text(t)
    }
}

/// The position of an answer by its key.
pub open spec fn answer_position(
    v: Seq<(Seq<char>, blocks::AnswerView)>,
    key: Seq<char>,
    from: int,
) -> Option<int>
    decreases v.len() - from,
{
    if from < 0 || from >= v.len() {
        None
    } else if v[from].0 == key {
        Some(from)
    } else {
        answer_position(v, key, from + 1)
    }
}

/// The answers with one more; it takes the place of one with the same key.
pub open spec fn answered(
    v: Seq<(Seq<char>, blocks::AnswerView)>,
    key: Seq<char>,
    a: blocks::AnswerView,
) -> Seq<(Seq<char>, blocks::AnswerView)> {
    match answer_position(v, key, 0) {
        Some(k) if 0 <= k < v.len() => v.update(k, (key, a)),
        _ => v.push((key, a)),
    }
}

/// The session after a text was typed into the current field, and the complete
/// form where it was the last one.
pub open spec fn submitted(s: AppView, t: Seq<char>) -> (AppView, Option<
    (Seq<char>, Seq<(Seq<char>, blocks::AnswerView)>),
>) {
    match s.pending {
        Some(p) if p.idx < p.fields.len() => {
            let f = p.fields[p.idx as int];
            let echoed = line_pushed(
                s,
                "   "@ + f.label + " = "@ + t,
                style::colored(Color::Magenta),
            );
            let all = answered(p.answers, f.key, answer_of(f.ftype, t));
            if p.idx + 1 >= p.fields.len() {
                (
                    AppView { pending: None, running: true, status: "resuming…"@, ..echoed },
                    Some((p.id, all)),
                )
            } else {
                (
                    AppView {
                        pending: Some(
                            blocks::PendingView { idx: (p.idx + 1) as usize, answers: all, ..p },
                        ),
                        ..echoed
                    },
                    None,
                )
            }
        },
        _ => (s, None),
    }
}

/// The complete form by its texts.
pub open spec fn form_view(r: Option<(String, Vec<(String, Answer)>)>) -> Option<
    (Seq<char>, Seq<(Seq<char>, blocks::AnswerView)>),
> {
    match r {
        Some(p) => Some((p.0@, blocks::answers(p.1@))),
        None => None,
    }
}

fn read_answer(ftype: &str, t: &str) -> (r: Answer)
    ensures
        r@ == answer_of(ftype@, t@),
{
    if text::str_eq(ftype, "number") {
        Answer::Number(pieces::str_trim(t))
    } else if text::str_eq(ftype, "checkbox") {
        let u = pieces::str_trim(t);
        let l = text::to_lowercase(&u);
        Answer::Checked(
            text::str_eq(&l, "y") || text::str_eq(&l, "yes") || text::str_eq(&l, "true")
                || text::str_eq(&l, "1") || text::str_eq(&l, "on"),
        )
    } else {
        Answer::Text(t.to_owned())
    }
}

fn put_answer(v: &mut Vec<(String, Answer)>, key: String, a: Answer)
    ensures
        blocks::answers(final(v)@) == answered(blocks::answers(old(v)@), key@, a@),
{
    let ghost start = blocks::answers(v@);
    let mut k: usize = 0;
    while k < v.len()
        invariant
            k <= v@.len(),
            v@ == old(v)@,
            start == blocks::answers(v@),
            answer_position(start, key@, 0) == answer_position(start, key@, k as int),
        decreases v@.len() - k,
    {
        assert(start[k as int].0 == v@[k as int].0@);
        if text::str_eq(&v[k].0, &key) {
            v.set(k, (key, a));
            assert(blocks::answers(v@) =~= start.update(k as int, (key@, a@)));
            return;
        }
        k += 1;
    }
    v.push((key, a));
    assert(blocks::answers(v@) =~= start.push((key@, a@)));
}

impl App {
    /// Whether the agent waits for a form to be filled in.
    pub fn awaiting_input(&self) -> (r: bool)
        ensures
            r == (self@.pending is Some),
    {
        self.pending.is_some()
    }

    /// The label of the field that is being filled in, with its number where
    /// there are several.
    pub fn pending_label(&self) -> (r: Option<String>)
        ensures
            text::opt_view(r) == pending_label_text(self@.pending),
    {
        match &self.pending {
            None => None,
            Some(p) => {
                if p.idx < p.fields.len() {
                    let mut s = p.fields[p.idx].label.clone();
                    if p.fields.len() > 1 {
                        s.push_str(" [");
                        let a = digits::usize_to_string(p.idx + 1);
                        s.push_str(&a);
                        s.push_str("/");
                        let b = digits::usize_to_string(p.fields.len());
                        s.push_str(&b);
                        s.push_str("]");
                    }
                    Some(s)
                } else {
                    None
                }
            },
        }
    }

    /// Takes a text as the answer to the current field. Hands back the id of
    /// the form and all answers once the last field is filled in.
    pub fn submit_interrupt_value(&mut self, t: &str) -> (r: Option<(String, Vec<(String, Answer)>)>)
        ensures
            (final(self)@, form_view(r)) == submitted(old(self)@, t@),
    {
        let mut key = String::new();
        let mut label = String::new();
        let mut a = Answer::Text(String::new());
        match &self.pending {
            None => {
                return None;
            },
            Some(p) => {
                if p.idx >= p.fields.len() {
                    return None;
                }
                let f = &p.fields[p.idx];
                assert(pulse::form(p.fields@)[p.idx as int] == f@);
                key = f.key.clone();
                label = f.label.clone();
                a = read_answer(&f.ftype, t);
            },
        }
        let mut line = "   ".to_owned();
        line.push_str(&label);
        line.push_str(" = ");
        line.push_str(t);
        let ghost before = self@;
        self.push(line, Style::colored(Color::Magenta));
        let mut taken: Option<Pending> = None;
        std::mem::swap(&mut taken, &mut self.pending);
        match taken {
            None => None,
            Some(p) => {
                let mut all = p.answers;
                put_answer(&mut all, key, a);
                if p.idx + 1 >= p.fields.len() {
                    self.running = true;
                    self.status = "resuming…".to_owned();
                    Some((p.id, all))
                } else {
                    self.pending = Some(
                        Pending { id: p.id, fields: p.fields, idx: p.idx + 1, answers: all },
                    );
                    None
                }
            },
        }
    }
}

/// The label of the field that is being filled in.
pub open spec fn pending_label_text(p: Option<blocks::PendingView>) -> Option<Seq<char>> {
    match p {
        Some(f) if f.idx < f.fields.len() => Some(
            if f.fields.len() > 1 {
                f.fields[f.idx as int].label + " ["@ + digits::dec((f.idx + 1) as nat) + "/"@
                    + digits::dec(f.fields.len()) + "]"@
            } else {
                f.fields[f.idx as int].label
            },
        ),
        _ => None,
    }
}

// ---- laws ------------------------------------------------------------------------------

/// No tool of the transcript is still running.
pub open spec fn no_tool_runs(b: Seq<blocks::BlockView>) -> bool {
    forall|i: int|
        0 <= i < b.len() ==> !((#[trigger] b[i]) matches blocks::BlockView::Tool { status, .. }
            && status == ToolStatus::Running)
}

proof fn flushing_starts_no_tool(s: AppView)
    requires
        no_tool_runs(s.blocks),
    ensures
        no_tool_runs(flushed(s).blocks),
{
}

/// When a run is over, or the connection is gone, no tool counts as running any
/// more.
pub proof fn ended_runs_leave_no_tool_running(s: AppView, e: pulse::EventView, now: u64)
    requires
        e is RunFinished || e is Disconnected,
    ensures
        no_tool_runs(after_event(s, e, now).blocks),
        !after_event(s, e, now).running,
{
    assert(no_tool_runs(all_settled(s).blocks));
    if let pulse::EventView::RunFinished(label) = e {
        let t = all_settled(AppView { running: false, ..s });
        assert(t.blocks == all_settled(s).blocks);
        let took = match s.run_started {
            Some(b) => Some(span(b, now)),
            None => None,
        };
        let u = AppView {
            run_started: None,
            last_elapsed: took,
            status: "idle ("@ + label + ")"@ + (match took {
                Some(d) => " · "@ + elapsed_text((d / SECOND) as nat),
                None => Seq::empty(),
            }),
            ..t
        };
        flushing_starts_no_tool(u);
        let f = flushed(u).blocks;
        assert(no_tool_runs(f.push(blocks::BlockView::Rule(label))));
    }
}

/// No two tasks have the same id.
pub open spec fn ids_differ(t: Seq<blocks::TaskView>) -> bool {
    forall|i: int, j: int| 0 <= i < j < t.len() ==> (#[trigger] t[i]).id != (#[trigger] t[j]).id
}

proof fn position_finds(t: Seq<blocks::TaskView>, id: Seq<char>, from: int)
    requires
        0 <= from <= t.len(),
    ensures
        match task_position(t, id, from) {
            Some(k) => from <= k < t.len() && t[k].id == id,
            None => forall|i: int| from <= i < t.len() ==> (#[trigger] t[i]).id != id,
        },
    decreases t.len() - from,
{
    if from < t.len() && t[from].id != id {
        position_finds(t, id, from + 1);
    }
}

/// Whatever the agent reports, the panel lists each task once.
pub proof fn tasks_are_listed_once(s: AppView, e: pulse::EventView, now: u64)
    requires
        ids_differ(s.tasks),
    ensures
        ids_differ(after_event(s, e, now).tasks),
{
    if let pulse::EventView::Stream(i) = e {
        if let Some(id) = i.task_id {
            position_finds(s.tasks, id, 0);
        }
    }
}

/// The tasks that were listed are still listed, in the same order and before
/// all others.
pub open spec fn extends_ids(t: Seq<blocks::TaskView>, u: Seq<blocks::TaskView>) -> bool {
    t.len() <= u.len() && forall|i: int| 0 <= i < t.len() ==> (#[trigger] u[i]).id == t[i].id
}

/// Bringing a task up to date lists no task twice and moves none.
pub proof fn updates_keep_the_list(
    t: Seq<blocks::TaskView>,
    id: Seq<char>,
    title: Seq<char>,
    titled: bool,
    status: TaskStatus,
    agent: Option<Seq<char>>,
)
    requires
        ids_differ(t),
    ensures
        ids_differ(task_upserted(t, id, title, titled, status, agent)),
        extends_ids(t, task_upserted(t, id, title, titled, status, agent)),
{
    position_finds(t, id, 0);
}

/// The session after texts were typed into a form, one after the other, and
/// what the last of them handed back.
pub open spec fn filled_in(s: AppView, texts: Seq<Seq<char>>) -> (AppView, Option<
    (Seq<char>, Seq<(Seq<char>, blocks::AnswerView)>),
>)
    decreases texts.len(),
{
    if texts.len() == 0 {
        (s, None)
    } else {
        submitted(filled_in(s, texts.drop_last()).0, texts.last())
    }
}

/// The answers are those to the first `n` fields, each key once.
pub open spec fn answers_fields(
    v: Seq<(Seq<char>, blocks::AnswerView)>,
    fields: Seq<pulse::FieldView>,
    n: int,
) -> bool {
    &&& forall|i: int, j: int| 0 <= i < j < v.len() ==> (#[trigger] v[i]).0 != (#[trigger] v[j]).0
    &&& forall|i: int| 0 <= i < v.len() ==> is_key_of((#[trigger] v[i]).0, fields, n)
    &&& forall|j: int| 0 <= j < n ==> is_answered(v, (#[trigger] fields[j]).key)
}

/// One of the first `n` fields has that key.
pub open spec fn is_key_of(key: Seq<char>, fields: Seq<pulse::FieldView>, n: int) -> bool {
    exists|j: int| 0 <= j < n && (#[trigger] fields[j]).key == key
}

/// One of the answers has that key.
pub open spec fn is_answered(v: Seq<(Seq<char>, blocks::AnswerView)>, key: Seq<char>) -> bool {
    exists|i: int| 0 <= i < v.len() && (#[trigger] v[i]).0 == key
}

proof fn answer_position_finds(v: Seq<(Seq<char>, blocks::AnswerView)>, key: Seq<char>, from: int)
    requires
        0 <= from <= v.len(),
    ensures
        match answer_position(v, key, from) {
            Some(k) => from <= k < v.len() && v[k].0 == key,
            None => forall|i: int| from <= i < v.len() ==> (#[trigger] v[i]).0 != key,
        },
    decreases v.len() - from,
{
    if from < v.len() && v[from].0 != key {
        answer_position_finds(v, key, from + 1);
    }
}

proof fn answer_counts(
    v: Seq<(Seq<char>, blocks::AnswerView)>,
    fields: Seq<pulse::FieldView>,
    n: int,
    a: blocks::AnswerView,
)
    requires
        0 <= n < fields.len(),
        answers_fields(v, fields, n),
    ensures
        answers_fields(answered(v, fields[n].key, a), fields, n + 1),
{
    let key = fields[n].key;
    let w = answered(v, key, a);
    answer_position_finds(v, key, 0);
    assert forall|i: int| 0 <= i < w.len() implies is_key_of((#[trigger] w[i]).0, fields, n + 1) by {
        if w[i].0 == key {
            assert(fields[n].key == key);
        } else {
            assert(is_key_of(v[i].0, fields, n));
            let j = choose|j: int| 0 <= j < n && (#[trigger] fields[j]).key == v[i].0;
            assert(fields[j].key == w[i].0);
        }
    }
    assert forall|j: int| 0 <= j < n + 1 implies is_answered(w, (#[trigger] fields[j]).key) by {
        if j == n {
            match answer_position(v, key, 0) {
                Some(k) => {
                    assert(w[k].0 == key);
                },
                None => {
                    assert(w[v.len() as int].0 == key);
                },
            }
        } else {
            assert(is_answered(v, fields[j].key));
            let i = choose|i: int| 0 <= i < v.len() && (#[trigger] v[i]).0 == fields[j].key;
            assert(w[i].0 == v[i].0);
        }
    }
}

/// A form is handed back with the last answer and not before; what is handed
/// back then holds the key of every field, each once, and no other.
pub proof fn forms_come_back_with_the_last_answer(s: AppView, texts: Seq<Seq<char>>)
    requires
        s.pending matches Some(p) && p.idx == 0 && p.answers.len() == 0 && texts.len()
            <= p.fields.len() <= usize::MAX,
    ensures
        ({
            let p = s.pending->0;
            let r = filled_in(s, texts);
            if texts.len() < p.fields.len() || texts.len() == 0 {
                &&& r.1 is None
                &&& r.0.pending matches Some(q) && q.id == p.id && q.fields == p.fields && q.idx
                    == texts.len() && answers_fields(q.answers, p.fields, texts.len() as int)
            } else {
                &&& r.1 matches Some(f) && f.0 == p.id && answers_fields(
                    f.1,
                    p.fields,
                    texts.len() as int,
                )
                &&& r.0.pending is None
            }
        }),
    decreases texts.len(),
{
    if texts.len() > 0 {
        let before = texts.drop_last();
        forms_come_back_with_the_last_answer(s, before);
        let u = filled_in(s, before).0;
        let q = u.pending->0;
        let f = q.fields[q.idx as int];
        answer_counts(q.answers, q.fields, q.idx as int, answer_of(f.ftype, texts.last()));
    }
}

/// The message that is being written, and the list over the session, are the
/// same.
pub open spec fn same_message(s: AppView, t: AppView) -> bool {
    t.input == s.input && t.input_cursor == s.input_cursor && t.overlay == s.overlay
}

proof fn streaming_keeps_the_message(s: AppView, i: pulse::ItemView)
    ensures
        same_message(s, streamed(s, i)),
{
    assert(same_message(s, flushed(s)));
    if i.kind == "task"@ {
        assert(same_message(s, task_event(s, i)));
    } else if i.kind == "tool_start"@ {
        let detail = text::text_or(i.detail, Seq::empty());
        assert(same_message(
            s,
            tool_started(s, text::text_or(i.tool_name, Seq::empty()), detail),
        ));
    }
}

/// Events of the connection never touch the message that is being written, nor
/// the list over the session.
pub proof fn events_keep_the_message(s: AppView, e: pulse::EventView, now: u64)
    ensures
        same_message(s, after_event(s, e, now)),
{
    match e {
        pulse::EventView::Stream(i) => streaming_keeps_the_message(s, i),
        pulse::EventView::RunFinished(label) => {
            assert(same_message(s, run_finished(s, label, now)));
        },
        _ => {
            assert(same_message(s, flushed(s)));
        },
    }
}

proof fn finishing_keeps_the_entries(b: Seq<blocks::BlockView>, ok: bool)
    ensures
        last_tool_finished(b, ok).len() == b.len(),
    decreases b.len(),
{
    if b.len() > 0 {
        finishing_keeps_the_entries(b.drop_last(), ok);
    }
}

proof fn streaming_loses_no_entry(s: AppView, i: pulse::ItemView)
    ensures
        streamed(s, i).blocks.len() >= s.blocks.len(),
{
    assert(flushed(s).blocks.len() >= s.blocks.len());
    finishing_keeps_the_entries(flushed(s).blocks, true);
    finishing_keeps_the_entries(flushed(s).blocks, false);
    if i.kind == "task"@ {
        assert(task_event(s, i).blocks.len() >= s.blocks.len());
    } else if i.kind == "tool_start"@ {
        let detail = text::text_or(i.detail, Seq::empty());
        let name = text::text_or(i.tool_name, Seq::empty());
        assert(tool_started(s, name, detail).blocks.len() >= s.blocks.len());
    }
}

/// No event takes an entry of the transcript away.
pub proof fn entries_are_never_lost(s: AppView, e: pulse::EventView, now: u64)
    ensures
        after_event(s, e, now).blocks.len() >= s.blocks.len(),
{
    match e {
        pulse::EventView::Stream(i) => streaming_loses_no_entry(s, i),
        pulse::EventView::RunFinished(label) => {
            assert(run_finished(s, label, now).blocks.len() >= s.blocks.len());
        },
        _ => {
            assert(flushed(s).blocks.len() >= s.blocks.len());
        },
    }
}

} // verus!
