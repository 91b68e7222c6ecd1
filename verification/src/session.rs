//! A chat session under the user's hands: message box, scrolling, overlays,
//! slash commands.

use vstd::prelude::*;
use crate::api;
use crate::api::SlashCmd;
use crate::app;
use crate::app::{App, Block, Overlay, OverlayItem, OverlayKind};
use crate::blocks;
use crate::editor;
use crate::pieces;
use crate::pulse;
use crate::ring;
use crate::style;
use crate::style::{Color, Line, Style};
use crate::text;

verus! {

broadcast use {
    vstd::seq::group_seq_axioms,
    vstd::string::group_string_axioms,
    blocks::group_blocks,
    style::group_styled,
    text::views_push,
    text::views_empty,
};

/// The release.
pub const VERSION: &'static str = "0.1.0";

/// The banner at the top of a new transcript and of the pickers.
pub const BANNER: &'static str =
    " ███████╗████████╗██████╗  ██████╗ ██████╗ ███████╗███████╗\n ██╔════╝╚══██╔══╝██╔══██╗██╔═══██╗██╔══██╗██╔════╝██╔════╝\n ███████╗   ██║   ██████╔╝██║   ██║██████╔╝█████╗  ███████╗\n ╚════██║   ██║   ██╔══██╗██║   ██║██╔══██╗██╔══╝  ╚════██║\n ███████║   ██║   ██║  ██║╚██████╔╝██████╔╝███████╗███████║\n ╚══════╝   ╚═╝   ╚═╝  ╚═╝ ╚═════╝ ╚═════╝ ╚══════╝╚══════╝\n            A G E N T S   A I  ·  v0.1.0  ·  terminal client";

// ---- a new session -----------------------------------------------------------------

/// The lines of the banner, indented.
pub open spec fn banner_lines(v: Seq<Seq<char>>) -> Seq<Seq<style::SpanView>> {
    v.map_values(|l: Seq<char>| seq![style::styled("   "@ + l, style::colored(Color::Cyan))])
}

/// Lines as entries of the transcript.
pub open spec fn plain_entries(v: Seq<Seq<style::SpanView>>) -> Seq<blocks::BlockView> {
    v.map_values(|l: Seq<style::SpanView>| blocks::BlockView::Plain(l))
}

/// The line that says as whom the user is signed in.
pub open spec fn auth_text(tenant: Seq<char>, base: Seq<char>, org: Seq<char>) -> Seq<char> {
    "✔ authenticated · tenant: "@ + tenant + " · "@ + base + " · org "@ + editor::cut(org, 8)
}

/// The keys that a new session shows.
pub const KEYS: &'static str =
    "Enter: send · Ctrl-C: cancel/quit · Esc: quit · PgUp/PgDn: scroll · Ctrl-T: thinking · Ctrl-R: markdown";

/// An empty session on a thread.
pub open spec fn empty_session(thread: Seq<char>, base: Seq<char>, auth: Seq<char>) -> app::AppView {
    app::AppView {
        blocks: Seq::empty(),
        stream: None,
        input: Seq::empty(),
        input_cursor: 0,
        status: "connecting…"@,
        connected: false,
        running: false,
        show_thinking: false,
        markdown: true,
        scroll: 0,
        max_scroll: 0,
        follow: true,
        pinned: false,
        thread_id: thread,
        title: Seq::empty(),
        base,
        pending: None,
        last_task: None,
        last_tool: None,
        overlay: None,
        has_workspace: false,
        workspace_name: None,
        task_label: None,
        auth_line: auth,
        spinner: 0,
        run_started: None,
        last_elapsed: None,
        slash_commands: Seq::empty(),
        slash_sel: 0,
        run_tokens: 0,
        session_tokens: 0,
        thread_tokens: 0,
        current_model: None,
        tasks: Seq::empty(),
        select_mode: false,
        models: api::offered_models(Seq::empty()),
    }
}

/// A new session: banner, the line that says who is signed in, the keys.
pub open spec fn new_session(
    thread: Seq<char>,
    base: Seq<char>,
    tenant: Seq<char>,
    org: Seq<char>,
) -> app::AppView {
    let auth = auth_text(tenant, base, org);
    let s = empty_session(thread, base, auth);
    app::system_line(
        app::AppView {
            blocks: plain_entries(
                banner_lines(pieces::lines(BANNER@)).push(
                    seq![style::styled("   "@ + auth, style::bold(Color::Green))],
                ),
            ),
            ..s
        },
        KEYS@,
    )
}

/// The banner as lines.
pub fn banner() -> (r: Vec<Line>)
    ensures
        style::lines(r@) == banner_lines(pieces::lines(BANNER@)),
{
    let lines = pieces::str_lines(BANNER);
    let ghost want = banner_lines(text::views(lines@));
    let mut out: Vec<Line> = Vec::new();
    assert(want.take(0) =~= Seq::empty());
    let mut i: usize = 0;
    while i < lines.len()
        invariant
            i <= lines@.len(),
            want == banner_lines(text::views(lines@)),
            style::lines(out@) == want.take(i as int),
        decreases lines@.len() - i,
    {
        let mut s = "   ".to_owned();
        s.push_str(&lines[i]);
        assert(text::views(lines@)[i as int] == lines@[i as int]@);
        out.push(Line::of(s, Style::colored(Color::Cyan)));
        assert(want.take(i + 1) =~= want.take(i as int).push(want[i as int]));
        i += 1;
    }
    assert(want.take(want.len() as int) =~= want);
    out
}

impl App {
    /// A new session on a thread of an organisation.
    pub fn new(thread_id: String, base: String, tenant: String, org_id: String) -> (r: App)
        requires
            editor::can_cut(org_id@, 8),
        ensures
            r@ == new_session(thread_id@, base@, tenant@, org_id@),
    {
        let mut auth = "✔ authenticated · tenant: ".to_owned();
        auth.push_str(&tenant);
        auth.push_str(" · ");
        auth.push_str(&base);
        auth.push_str(" · org ");
        let org = editor::str_cut(&org_id, 8);
        auth.push_str(&org);
        let mut last = "   ".to_owned();
        last.push_str(&auth);
        let unlabelled: Vec<(i64, String)> = Vec::new();
        assert(api::labels(unlabelled@) =~= Seq::empty());
        let mut a = App {
            blocks: Vec::new(),
            stream: None,
            input: String::new(),
            input_cursor: 0,
            status: "connecting…".to_owned(),
            connected: false,
            running: false,
            show_thinking: false,
            markdown: true,
            scroll: 0,
            max_scroll: 0,
            follow: true,
            pinned: false,
            thread_id,
            title: String::new(),
            base,
            pending: None,
            last_task: None,
            last_tool: None,
            overlay: None,
            has_workspace: false,
            workspace_name: None,
            task_label: None,
            auth_line: auth,
            spinner: 0,
            run_started: None,
            last_elapsed: None,
            slash_commands: Vec::new(),
            slash_sel: 0,
            run_tokens: 0,
            session_tokens: 0,
            thread_tokens: 0,
            current_model: None,
            tasks: Vec::new(),
            select_mode: false,
            models: api::model_table(&unlabelled),
        };
        let mut top = banner();
        top.push(Line::of(last, Style::bold(Color::Green)));
        let ghost start = empty_session(thread_id@, base@, auth@);
        assert(blocks::slash_list(a.slash_commands@) =~= Seq::empty());
        assert(a@ == start);
        let ghost want = plain_entries(style::lines(top@));
        assert(want.take(0) =~= Seq::empty());
        let mut i: usize = 0;
        while i < top.len()
            invariant
                i <= top@.len(),
                want == plain_entries(style::lines(top@)),
                a@ == (app::AppView { blocks: want.take(i as int), ..start }),
            decreases top@.len() - i,
        {
            a.blocks.push(Block::Plain(top[i].duplicate()));
            assert(style::lines(top@)[i as int] == top@[i as int]@);
            assert(want.take(i + 1) =~= want.take(i as int).push(want[i as int]));
            i += 1;
        }
        assert(want.take(want.len() as int) =~= want);
        a.sys(KEYS);
        a
    }

    /// Empties the session for another thread.
    pub fn reset_for_thread(&mut self, thread_id: String)
        ensures
            final(self)@ == app::system_line(
                app::AppView {
                    blocks: Seq::empty(),
                    stream: None,
                    pending: None,
                    overlay: None,
                    last_task: None,
                    scroll: u16::MAX,
                    follow: true,
                    pinned: false,
                    input: Seq::empty(),
                    input_cursor: 0,
                    thread_id: thread_id@,
                    title: Seq::empty(),
                    task_label: None,
                    thread_tokens: 0,
                    tasks: Seq::empty(),
                    ..old(self)@
                },
                "Strobes Agents AI — Ratatui client"@,
            ),
    {
        self.blocks = Vec::new();
        self.stream = None;
        self.pending = None;
        self.overlay = None;
        self.last_task = None;
        self.scroll = u16::MAX;
        self.follow = true;
        self.pinned = false;
        self.input_clear();
        self.thread_id = thread_id;
        self.title = String::new();
        self.task_label = None;
        self.thread_tokens = 0;
        self.tasks = Vec::new();
        self.sys("Strobes Agents AI — Ratatui client");
    }

    pub fn set_title(&mut self, title: String)
        ensures
            final(self)@ == (app::AppView { title: title@, ..old(self)@ }),
    {
        self.title = title;
    }

    /// The workspace that the transcript shows; none for an empty name.
    pub fn set_workspace_name(&mut self, name: String)
        ensures
            final(self)@ == (app::AppView {
                workspace_name: if name@.len() == 0 {
                    None
                } else {
                    Some(name@)
                },
                ..old(self)@
            }),
    {
        self.workspace_name = if text::char_count(&name) == 0 {
            None
        } else {
            Some(name)
        };
    }

    /// The tokens that the thread has used so far.
    pub fn set_thread_credits(&mut self, tokens: i64)
        ensures
            final(self)@ == (app::AppView { thread_tokens: tokens, ..old(self)@ }),
    {
        self.thread_tokens = tokens;
    }

    /// The models on offer and their labels.
    pub fn set_models(&mut self, models: Vec<(i64, String)>)
        ensures
            final(self)@ == (app::AppView { models: api::labels(models@), ..old(self)@ }),
    {
        self.models = models;
    }

    /// The model of the session; none stands for the organisation's own.
    pub fn set_model(&mut self, model: Option<i64>)
        ensures
            final(self)@ == (app::AppView { current_model: model, ..old(self)@ }),
    {
        self.current_model = model;
    }

    pub fn current_model(&self) -> (r: Option<i64>)
        ensures
            r == self@.current_model,
    {
        self.current_model
    }

    /// Moves the working sign on.
    pub fn tick(&mut self)
        ensures
            final(self)@ == (app::AppView {
                spinner: old(self)@.spinner.wrapping_add(1),
                ..old(self)@
            }),
    {
        self.spinner = self.spinner.wrapping_add(1);
    }

    /// How many whole seconds the last complete run took.
    pub fn last_run_secs(&self) -> (r: Option<u64>)
        ensures
            r == match self@.last_elapsed {
                Some(d) => Some((d / app::SECOND) as u64),
                None => None,
            },
    {
        match self.last_elapsed {
            Some(d) => Some(d / app::SECOND),
            None => None,
        }
    }
}

// ---- the message box -----------------------------------------------------------------

/// The message box of a session.
pub open spec fn message(s: app::AppView) -> editor::Buffer {
    editor::buffer(s.input, s.input_cursor as nat)
}

/// The cursor stands between two characters of the message.
pub open spec fn editable(s: app::AppView) -> bool {
    editor::on_boundary(s.input, s.input_cursor as nat)
}

/// Nothing but the message box differs.
pub open spec fn same_but_message(s: app::AppView, t: app::AppView) -> bool {
    t == (app::AppView { input: t.input, input_cursor: t.input_cursor, ..s })
}

impl App {
    /// Inserts a character at the cursor.
    pub fn input_insert_char(&mut self, c: char)
        requires
            editable(old(self)@),
        ensures
            editable(final(self)@),
            message(final(self)@) == editor::inserted(message(old(self)@), c),
            same_but_message(old(self)@, final(self)@),
    {
        editor::insert_char(&mut self.input, &mut self.input_cursor, c);
    }

    /// Inserts a line break at the cursor.
    pub fn input_newline(&mut self)
        requires
            editable(old(self)@),
        ensures
            editable(final(self)@),
            message(final(self)@) == editor::inserted(message(old(self)@), '\n'),
            same_but_message(old(self)@, final(self)@),
    {
        editor::insert_char(&mut self.input, &mut self.input_cursor, '\n');
    }

    /// Deletes the character before the cursor.
    pub fn input_backspace(&mut self)
        requires
            editable(old(self)@),
        ensures
            editable(final(self)@),
            message(final(self)@) == editor::backspaced(message(old(self)@)),
            same_but_message(old(self)@, final(self)@),
    {
        editor::backspace(&mut self.input, &mut self.input_cursor);
    }

    /// Deletes the character at the cursor.
    pub fn input_delete(&mut self)
        requires
            editable(old(self)@),
        ensures
            editable(final(self)@),
            message(final(self)@) == editor::deleted(message(old(self)@)),
            same_but_message(old(self)@, final(self)@),
    {
        editor::delete(&mut self.input, &mut self.input_cursor);
    }

    pub fn input_left(&mut self)
        requires
            editable(old(self)@),
        ensures
            editable(final(self)@),
            message(final(self)@) == editor::moved_left(message(old(self)@)),
            same_but_message(old(self)@, final(self)@),
    {
        self.input_cursor = editor::left(&self.input, self.input_cursor);
    }

    pub fn input_right(&mut self)
        requires
            editable(old(self)@),
        ensures
            editable(final(self)@),
            message(final(self)@) == editor::moved_right(message(old(self)@)),
            same_but_message(old(self)@, final(self)@),
    {
        self.input_cursor = editor::right(&self.input, self.input_cursor);
    }

    /// Goes to the start of the line.
    pub fn input_home(&mut self)
        requires
            editable(old(self)@),
        ensures
            editable(final(self)@),
            message(final(self)@) == editor::moved_home(message(old(self)@)),
            same_but_message(old(self)@, final(self)@),
    {
        self.input_cursor = editor::home(&self.input, self.input_cursor);
    }

    /// Goes to the end of the line.
    pub fn input_end(&mut self)
        requires
            editable(old(self)@),
        ensures
            editable(final(self)@),
            message(final(self)@) == editor::moved_end(message(old(self)@)),
            same_but_message(old(self)@, final(self)@),
    {
        self.input_cursor = editor::end(&self.input, self.input_cursor);
    }

    /// Goes up one line in the same column; not from the first line.
    pub fn input_up(&mut self) -> (r: bool)
        requires
            editable(old(self)@),
        ensures
            editable(final(self)@),
            r == editor::can_move_up(message(old(self)@)),
            r ==> message(final(self)@) == editor::moved_up(message(old(self)@)),
            !r ==> final(self)@ == old(self)@,
            same_but_message(old(self)@, final(self)@),
    {
        match editor::up(&self.input, self.input_cursor) {
            Some(c) => {
                self.input_cursor = c;
                true
            },
            None => false,
        }
    }

    /// Goes down one line in the same column; not from the last line.
    pub fn input_down(&mut self) -> (r: bool)
        requires
            editable(old(self)@),
        ensures
            editable(final(self)@),
            r == editor::can_move_down(message(old(self)@)),
            r ==> message(final(self)@) == editor::moved_down(message(old(self)@)),
            !r ==> final(self)@ == old(self)@,
            same_but_message(old(self)@, final(self)@),
    {
        match editor::down(&self.input, self.input_cursor) {
            Some(c) => {
                self.input_cursor = c;
                true
            },
            None => false,
        }
    }

    /// Empties the message box.
    pub fn input_clear(&mut self)
        ensures
            editable(final(self)@),
            final(self)@ == (app::AppView { input: Seq::empty(), input_cursor: 0, ..old(self)@ }),
    {
        self.input = String::new();
        self.input_cursor = 0;
        proof {
            editor::position_is_unique(self@.input, 0, 0);
        }
    }
}

// ---- scrolling -----------------------------------------------------------------------

/// The view after scrolling by `n` lines. Scrolling up pins it; reaching the
/// end lets it follow the output again.
pub open spec fn scrolled(s: app::AppView, up: bool, n: u16) -> app::AppView {
    if up {
        app::AppView {
            follow: false,
            pinned: true,
            scroll: if s.scroll >= n {
                (s.scroll - n) as u16
            } else {
                0
            },
            ..s
        }
    } else {
        let to = if s.scroll + n <= s.max_scroll {
            (s.scroll + n) as u16
        } else {
            s.max_scroll
        };
        if to >= s.max_scroll {
            app::AppView { scroll: to, follow: true, pinned: false, ..s }
        } else {
            app::AppView { scroll: to, ..s }
        }
    }
}

/// The view over `total` lines in a window of `height` lines: it shows the end
/// unless it is pinned or does not follow.
pub open spec fn settled_scroll(s: app::AppView, total: u16, height: u16) -> app::AppView {
    let max = if total >= height {
        (total - height) as u16
    } else {
        0u16
    };
    app::AppView {
        max_scroll: max,
        scroll: if (s.follow && !s.pinned) || s.scroll > max {
            max
        } else {
            s.scroll
        },
        ..s
    }
}

impl App {
    /// Scrolls by a page of `h` lines.
    pub fn page(&mut self, up: bool, h: u16)
        ensures
            final(self)@ == scrolled(
                old(self)@,
                up,
                if h == 0 {
                    1
                } else {
                    h
                },
            ),
    {
        self.scroll_lines(
            up,
            if h == 0 {
                1
            } else {
                h
            },
        );
    }

    /// Scrolls by one line.
    pub fn scroll_line(&mut self, up: bool)
        ensures
            final(self)@ == scrolled(old(self)@, up, 1),
    {
        self.scroll_lines(up, 1);
    }

    /// Scrolls by `n` lines.
    pub fn scroll_lines(&mut self, up: bool, n: u16)
        ensures
            final(self)@ == scrolled(old(self)@, up, n),
    {
        if up {
            self.follow = false;
            self.pinned = true;
            self.scroll = if self.scroll >= n {
                self.scroll - n
            } else {
                0
            };
        } else {
            self.scroll = if self.scroll <= self.max_scroll && n <= self.max_scroll - self.scroll {
                self.scroll + n
            } else {
                self.max_scroll
            };
            if self.scroll >= self.max_scroll {
                self.follow = true;
                self.pinned = false;
            }
        }
    }

    /// The user has scrolled up.
    pub fn is_pinned(&self) -> (r: bool)
        ensures
            r == self@.pinned,
    {
        self.pinned
    }

    /// Goes back to the end and follows the output.
    pub fn jump_to_bottom(&mut self)
        ensures
            final(self)@ == (app::AppView {
                pinned: false,
                follow: true,
                scroll: old(self)@.max_scroll,
                ..old(self)@
            }),
    {
        self.pinned = false;
        self.follow = true;
        self.scroll = self.max_scroll;
    }

    /// Fits the view to a transcript of `total` lines in a window of `height`.
    pub fn settle_scroll(&mut self, total: usize, height: u16)
        ensures
            final(self)@ == settled_scroll(old(self)@, total as u16, height),
    {
        let lines: u16 = #[verifier::truncate] (total as u16);
        self.max_scroll = if lines >= height {
            lines - height
        } else {
            0
        };
        if self.follow && !self.pinned {
            self.scroll = self.max_scroll;
        } else if self.scroll > self.max_scroll {
            self.scroll = self.max_scroll;
        }
    }
}

/// The parts of a session that say what its window shows are the same.
pub open spec fn same_window(s: app::AppView, t: app::AppView) -> bool {
    t.pinned == s.pinned && t.scroll == s.scroll && t.max_scroll == s.max_scroll
}

proof fn lines_keep_window(s: app::AppView, t: Seq<char>, look: Style)
    ensures
        same_window(s, app::flushed(s)),
        same_window(s, app::line_pushed(s, t, look)),
        same_window(s, app::system_line(s, t)),
        same_window(s, app::ruled(s, t)),
        same_window(s, app::task_marked(s, t)),
{
}

proof fn stream_keeps_window(s: app::AppView, i: pulse::ItemView)
    ensures
        same_window(s, app::streamed(s, i)),
{
    assert forall|q: app::AppView, t: Seq<char>, look: Style| #[trigger]
        same_window(q, app::line_pushed(q, t, look)) by {
        lines_keep_window(q, t, look);
    }
    assert forall|q: app::AppView, t: Seq<char>|
        same_window(q, #[trigger] app::system_line(q, t)) && same_window(
            q,
            #[trigger] app::task_marked(q, t),
        ) by {
        lines_keep_window(q, t, style::plain());
    }
    assert forall|q: app::AppView| same_window(q, #[trigger] app::flushed(q)) by {
        lines_keep_window(q, Seq::empty(), style::plain());
    }
}

proof fn event_keeps_window(s: app::AppView, e: pulse::EventView, now: u64)
    ensures
        same_window(s, app::after_event(s, e, now)),
{
    match e {
        pulse::EventView::Stream(i) => {
            stream_keeps_window(s, i);
        },
        pulse::EventView::RunFinished(label) => {
            let done = app::run_finished(s, label, now);
            assert(same_window(s, done));
        },
        pulse::EventView::Notice(n) => {
            lines_keep_window(s, "  · "@ + n, style::colored(Color::Cyan));
        },
        pulse::EventView::Error(w) => {
            lines_keep_window(s, "error: "@ + w, style::bold(Color::Red));
        },
        pulse::EventView::LocalToolDone { name, ms, exit, err } => {
            assert forall|t: Seq<char>, look: Style|
                same_window(s, #[trigger] app::line_pushed(s, t, look)) by {
                lines_keep_window(s, t, look);
            }
        },
        pulse::EventView::Interrupt { id, title, message, fields } => {
            assert forall|q: app::AppView, t: Seq<char>, look: Style|
                same_window(q, #[trigger] app::line_pushed(q, t, look)) by {
                lines_keep_window(q, t, look);
            }
        },
        _ => {},
    }
}

/// No event of the connection moves a view that the user has pinned, nor
/// unpins it: output that arrives never takes the reader away.
pub proof fn events_keep_a_pinned_view(
    s: app::AppView,
    e: pulse::EventView,
    now: u64,
    total: u16,
    height: u16,
)
    requires
        s.pinned,
    ensures
        same_window(s, app::after_event(s, e, now)),
        settled_scroll(app::after_event(s, e, now), total, height).pinned,
        total - height >= s.scroll ==> settled_scroll(
            app::after_event(s, e, now),
            total,
            height,
        ).scroll == s.scroll,
{
    event_keeps_window(s, e, now);
}

/// Scrolling up pins the view, whatever it was before; a session that shows
/// the end again is pinned no longer.
pub proof fn scrolling_pins_and_unpins(s: app::AppView, n: u16)
    ensures
        scrolled(s, true, n).pinned,
        !scrolled(s, true, n).follow,
        scrolled(s, false, n).scroll == s.max_scroll ==> !scrolled(s, false, n).pinned && scrolled(
            s,
            false,
            n,
        ).follow,
{
}

// ---- overlays ------------------------------------------------------------------------

/// The session with another overlay.
pub open spec fn with_overlay(s: app::AppView, o: Option<blocks::OverlayView>) -> app::AppView {
    app::AppView { overlay: o, ..s }
}

/// The cursor of an overlay moved by one row.
pub open spec fn overlay_moved(o: blocks::OverlayView, up: bool) -> blocks::OverlayView {
    let n = blocks::visible_items(o).len() as int;
    if o.detail_open {
        blocks::OverlayView { dscroll: detail_scrolled(o.dscroll, up, 1), ..o }
    } else if n > 0 {
        blocks::OverlayView { sel: ring::stepped(o.sel as int, n, up) as usize, ..o }
    } else {
        o
    }
}

/// An offset moved by `h` lines within its range.
pub open spec fn detail_scrolled(at: u16, up: bool, h: u16) -> u16 {
    if up {
        if at >= h {
            (at - h) as u16
        } else {
            0
        }
    } else if at + h <= u16::MAX {
        (at + h) as u16
    } else {
        u16::MAX
    }
}

fn scroll_detail(at: u16, up: bool, h: u16) -> (r: u16)
    ensures
        r == detail_scrolled(at, up, h),
{
    if up {
        if at >= h {
            at - h
        } else {
            0
        }
    } else if h <= u16::MAX - at {
        at + h
    } else {
        u16::MAX
    }
}

/// The rows of a picker hand back an id; the rows of the others open a detail
/// view.
pub open spec fn is_picker(k: OverlayKind) -> bool {
    k == OverlayKind::Threads || k == OverlayKind::Workspaces || k == OverlayKind::Models
}

fn kind_is_picker(k: OverlayKind) -> (r: bool)
    ensures
        r == is_picker(k),
{
    match k {
        OverlayKind::Threads | OverlayKind::Workspaces | OverlayKind::Models => true,
        OverlayKind::Findings | OverlayKind::Approvals | OverlayKind::Files => false,
    }
}

/// What Enter does in an overlay: the overlay after it, and what was chosen.
pub open spec fn overlay_entered(o: blocks::OverlayView) -> (
    blocks::OverlayView,
    Option<(OverlayKind, Seq<char>)>,
) {
    if is_picker(o.kind) {
        (
            o,
            match blocks::item_under_cursor(o) {
                Some(i) => match o.items[i as int].action {
                    Some(a) => Some((o.kind, a)),
                    None => None,
                },
                None => None,
            },
        )
    } else {
        (blocks::OverlayView { detail_open: !o.detail_open, dscroll: 0, ..o }, None)
    }
}

pub open spec fn chosen_view(r: Option<(OverlayKind, String)>) -> Option<(OverlayKind, Seq<char>)> {
    match r {
        Some(p) => Some((p.0, p.1@)),
        None => None,
    }
}

fn without_last_char(s: &str) -> (r: String)
    ensures
        r@ == if s@.len() == 0 {
            s@
        } else {
            s@.drop_last()
        },
{
    let n: usize = text::char_count(s);
    if n == 0 {
        s.to_owned()
    } else {
        text::str_prefix(s, n - 1)
    }
}

impl App {
    /// Opens an overlay with the cursor on its first row and no filter.
    pub fn open_overlay(&mut self, kind: OverlayKind, title: String, items: Vec<OverlayItem>)
        ensures
            final(self)@ == with_overlay(
                old(self)@,
                Some(
                    blocks::OverlayView {
                        kind,
                        title: title@,
                        items: blocks::overlay_items(items@),
                        sel: 0,
                        detail_open: false,
                        dscroll: 0,
                        filter: Seq::empty(),
                    },
                ),
            ),
    {
        self.overlay = Some(
            Overlay {
                kind,
                title,
                items,
                sel: 0,
                detail_open: false,
                dscroll: 0,
                filter: String::new(),
            },
        );
    }

    /// Adds a character to the search filter; the cursor goes to the first row.
    pub fn overlay_filter_push(&mut self, c: char)
        ensures
            final(self)@ == with_overlay(
                old(self)@,
                match old(self)@.overlay {
                    Some(o) => Some(
                        blocks::OverlayView { filter: o.filter.push(c), sel: 0, ..o },
                    ),
                    None => None,
                },
            ),
    {
        let mut taken: Option<Overlay> = None;
        std::mem::swap(&mut taken, &mut self.overlay);
        if let Some(o) = taken {
            let mut filter = o.filter;
            filter.push(c);
            self.overlay = Some(
                Overlay {
                    kind: o.kind,
                    title: o.title,
                    items: o.items,
                    sel: 0,
                    detail_open: o.detail_open,
                    dscroll: o.dscroll,
                    filter,
                },
            );
        }
    }

    /// Takes the last character off the search filter; the cursor goes to the
    /// first row.
    pub fn overlay_filter_pop(&mut self)
        ensures
            final(self)@ == with_overlay(
                old(self)@,
                match old(self)@.overlay {
                    Some(o) => Some(
                        blocks::OverlayView {
                            filter: if o.filter.len() == 0 {
                                o.filter
                            } else {
                                o.filter.drop_last()
                            },
                            sel: 0,
                            ..o
                        },
                    ),
                    None => None,
                },
            ),
    {
        let mut taken: Option<Overlay> = None;
        std::mem::swap(&mut taken, &mut self.overlay);
        if let Some(o) = taken {
            let filter = without_last_char(&o.filter);
            self.overlay = Some(
                Overlay {
                    kind: o.kind,
                    title: o.title,
                    items: o.items,
                    sel: 0,
                    detail_open: o.detail_open,
                    dscroll: o.dscroll,
                    filter,
                },
            );
        }
    }

    /// The overlay has a search filter: the pickers have one.
    pub fn overlay_searchable(&self) -> (r: bool)
        ensures
            r == (self@.overlay matches Some(o) && is_picker(o.kind)),
    {
        match &self.overlay {
            Some(o) => kind_is_picker(o.kind),
            None => false,
        }
    }

    pub fn overlay_active(&self) -> (r: bool)
        ensures
            r == (self@.overlay is Some),
    {
        self.overlay.is_some()
    }

    pub fn overlay_kind(&self) -> (r: Option<OverlayKind>)
        ensures
            r == match self@.overlay {
                Some(o) => Some(o.kind),
                None => None,
            },
    {
        match &self.overlay {
            Some(o) => Some(o.kind),
            None => None,
        }
    }

    pub fn overlay_detail_open(&self) -> (r: bool)
        ensures
            r == (self@.overlay matches Some(o) && o.detail_open),
    {
        match &self.overlay {
            Some(o) => o.detail_open,
            None => false,
        }
    }

    pub fn close_overlay(&mut self)
        ensures
            final(self)@ == with_overlay(old(self)@, None),
    {
        self.overlay = None;
    }

    /// Moves the cursor by one row, or scrolls the detail view by one line.
    pub fn overlay_move(&mut self, up: bool)
        ensures
            final(self)@ == with_overlay(
                old(self)@,
                match old(self)@.overlay {
                    Some(o) => Some(overlay_moved(o, up)),
                    None => None,
                },
            ),
    {
        let mut taken: Option<Overlay> = None;
        std::mem::swap(&mut taken, &mut self.overlay);
        if let Some(o) = taken {
            let mut sel: usize = o.sel;
            let mut dscroll: u16 = o.dscroll;
            if o.detail_open {
                dscroll = scroll_detail(dscroll, up, 1);
            } else {
                let v = o.visible();
                let n: usize = v.len();
                if n > 0 {
                    sel = ring::step(sel, n, up);
                }
            }
            self.overlay = Some(
                Overlay {
                    kind: o.kind,
                    title: o.title,
                    items: o.items,
                    sel,
                    detail_open: o.detail_open,
                    dscroll,
                    filter: o.filter,
                },
            );
        }
    }

    /// Scrolls the detail view by a page.
    pub fn overlay_page(&mut self, up: bool, h: u16)
        ensures
            final(self)@ == with_overlay(
                old(self)@,
                match old(self)@.overlay {
                    Some(o) => Some(
                        if o.detail_open {
                            blocks::OverlayView { dscroll: detail_scrolled(o.dscroll, up, h), ..o }
                        } else {
                            o
                        },
                    ),
                    None => None,
                },
            ),
    {
        let mut taken: Option<Overlay> = None;
        std::mem::swap(&mut taken, &mut self.overlay);
        if let Some(o) = taken {
            let dscroll: u16 = if o.detail_open {
                scroll_detail(o.dscroll, up, h)
            } else {
                o.dscroll
            };
            self.overlay = Some(
                Overlay {
                    kind: o.kind,
                    title: o.title,
                    items: o.items,
                    sel: o.sel,
                    detail_open: o.detail_open,
                    dscroll,
                    filter: o.filter,
                },
            );
        }
    }

    /// Enter in an overlay: a picker hands back what was chosen, the others
    /// open or close the detail view.
    pub fn overlay_enter(&mut self) -> (r: Option<(OverlayKind, String)>)
        ensures
            match old(self)@.overlay {
                Some(o) => final(self)@ == with_overlay(old(self)@, Some(overlay_entered(o).0))
                    && chosen_view(r) == overlay_entered(o).1,
                None => final(self)@ == old(self)@ && r is None,
            },
    {
        let mut taken: Option<Overlay> = None;
        std::mem::swap(&mut taken, &mut self.overlay);
        match taken {
            None => None,
            Some(o) => {
                if kind_is_picker(o.kind) {
                    let mut found: Option<(OverlayKind, String)> = None;
                    match o.current() {
                        Some(i) => {
                            assert(o@.items[i as int] == o.items@[i as int]@);
                            match &o.items[i].action {
                                Some(a) => {
                                    found = Some((o.kind, a.clone()));
                                },
                                None => {},
                            }
                        },
                        None => {},
                    }
                    self.overlay = Some(o);
                    found
                } else {
                    self.overlay = Some(
                        Overlay {
                            kind: o.kind,
                            title: o.title,
                            items: o.items,
                            sel: o.sel,
                            detail_open: !o.detail_open,
                            dscroll: 0,
                            filter: o.filter,
                        },
                    );
                    None
                }
            },
        }
    }

    /// Escape in an overlay: closes the detail view where it is open, else the
    /// overlay. Says whether there was anything to close.
    pub fn overlay_esc(&mut self) -> (r: bool)
        ensures
            r == (old(self)@.overlay is Some),
            final(self)@ == with_overlay(
                old(self)@,
                match old(self)@.overlay {
                    Some(o) => if o.detail_open {
                        Some(blocks::OverlayView { detail_open: false, ..o })
                    } else {
                        None
                    },
                    None => None,
                },
            ),
    {
        let mut taken: Option<Overlay> = None;
        std::mem::swap(&mut taken, &mut self.overlay);
        match taken {
            None => false,
            Some(o) => {
                if o.detail_open {
                    self.overlay = Some(
                        Overlay {
                            kind: o.kind,
                            title: o.title,
                            items: o.items,
                            sel: o.sel,
                            detail_open: false,
                            dscroll: o.dscroll,
                            filter: o.filter,
                        },
                    );
                }
                true
            },
        }
    }
}

/// A cursor moved in an overlay with visible rows is on one of them.
pub proof fn moved_cursor_is_on_a_row(o: blocks::OverlayView, up: bool)
    requires
        !o.detail_open,
        0 < blocks::visible_items(o).len() <= usize::MAX,
    ensures
        overlay_moved(o, up).sel < blocks::visible_items(o).len(),
        blocks::item_under_cursor(overlay_moved(o, up)) is Some,
{
    let n = blocks::visible_items(o).len() as int;
    let m = ring::stepped(o.sel as int, n, up);
    assert(0 <= m < n) by {
        vstd::arithmetic::div_mod::lemma_mod_bound(o.sel + n - 1, n);
        vstd::arithmetic::div_mod::lemma_mod_bound(o.sel + 1, n);
    }
    visible_depends_on_filter(o, overlay_moved(o, up), o.items.len() as int);
}

proof fn visible_depends_on_filter(a: blocks::OverlayView, b: blocks::OverlayView, n: int)
    requires
        a.filter == b.filter,
        a.items == b.items,
    ensures
        blocks::visible_among(a, n) == blocks::visible_among(b, n),
    decreases n,
{
    if n > 0 {
        visible_depends_on_filter(a, b, n - 1);
    }
}

// ---- slash commands --------------------------------------------------------------------

/// The most commands that are offered.
pub const MAX_OFFERED: usize = 50;

/// The beginning of a command name that is being typed: the message begins
/// with a slash and has no space yet.
pub open spec fn slash_prefix(input: Seq<char>) -> Option<Seq<char>> {
    match text::strip_prefix(input, "/"@) {
        Some(t) if !text::contains(t, " "@) => Some(t),
        _ => None,
    }
}

/// The positions among the first `n` commands whose names begin with the
/// prefix, whatever the case, no more than are offered.
pub open spec fn offered(c: Seq<blocks::SlashView>, prefix: Seq<char>, n: int) -> Seq<usize>
    decreases n,
{
    if n <= 0 {
        Seq::empty()
    } else {
        let before = offered(c, prefix, n - 1);
        if before.len() < MAX_OFFERED && text::starts_with(
            text::lowercase(c[n - 1].name),
            text::lowercase(prefix),
        ) {
            before.push((n - 1) as usize)
        } else {
            before
        }
    }
}

/// The commands that complete what is being typed.
pub open spec fn slash_choices(s: app::AppView) -> Seq<usize> {
    match slash_prefix(s.input) {
        Some(p) => offered(s.slash_commands, p, s.slash_commands.len() as int),
        None => Seq::empty(),
    }
}

/// The choice under the cursor; the last one where the cursor is past it.
pub open spec fn slash_choice(s: app::AppView) -> Option<int> {
    let c = slash_choices(s);
    if c.len() == 0 {
        None
    } else if s.slash_sel < c.len() {
        Some(c[s.slash_sel as int] as int)
    } else {
        Some(c.last() as int)
    }
}

proof fn offered_positions(c: Seq<blocks::SlashView>, prefix: Seq<char>, n: int)
    requires
        n <= c.len() <= usize::MAX,
    ensures
        forall|i: int|
            0 <= i < offered(c, prefix, n).len() ==> (#[trigger] offered(c, prefix, n)[i]) < n,
    decreases n,
{
    if n > 0 {
        offered_positions(c, prefix, n - 1);
        let before = offered(c, prefix, n - 1);
        assert forall|i: int| 0 <= i < offered(c, prefix, n).len() implies (#[trigger] offered(
            c,
            prefix,
            n,
        )[i]) < n by {
            if i < before.len() {
                assert(before[i] < n - 1);
            }
        }
    }
}

impl App {
    pub fn set_slash_commands(&mut self, cmds: Vec<SlashCmd>)
        ensures
            final(self)@ == (app::AppView {
                slash_commands: blocks::slash_list(cmds@),
                ..old(self)@
            }),
    {
        self.slash_commands = cmds;
    }

    /// The commands that complete what is being typed, by their positions.
    pub fn slash_matches(&self) -> (r: Vec<usize>)
        ensures
            r@ == slash_choices(self@),
            forall|i: int| 0 <= i < r@.len() ==> (#[trigger] r@[i]) < self.slash_commands@.len(),
    {
        let mut out: Vec<usize> = Vec::new();
        match text::str_strip_prefix(&self.input, "/") {
            Some(t) => {
                if text::str_contains(&t, " ") {
                    return out;
                }
                let needle = text::to_lowercase(&t);
                let n: usize = self.slash_commands.len();
                proof {
                    offered_positions(self@.slash_commands, t@, n as int);
                }
                let mut i: usize = 0;
                while i < self.slash_commands.len()
                    invariant
                        i <= self.slash_commands@.len(),
                        needle@ == text::lowercase(t@),
                        out@ == offered(self@.slash_commands, t@, i as int),
                    decreases self.slash_commands@.len() - i,
                {
                    assert(self@.slash_commands[i as int].name == self.slash_commands@[i as int].name@);
                    if out.len() < MAX_OFFERED {
                        let name = text::to_lowercase(&self.slash_commands[i].name);
                        if text::str_starts_with(&name, &needle) {
                            out.push(i);
                        }
                    }
                    i += 1;
                }
                out
            },
            None => out,
        }
    }

    /// There is a command to complete.
    pub fn slash_open(&self) -> (r: bool)
        ensures
            r == (slash_choices(self@).len() > 0),
    {
        let m = self.slash_matches();
        m.len() > 0
    }

    /// Moves the cursor round the commands.
    pub fn slash_move(&mut self, up: bool)
        ensures
            final(self)@ == if slash_choices(old(self)@).len() == 0 {
                old(self)@
            } else {
                app::AppView {
                    slash_sel: ring::stepped(
                        old(self)@.slash_sel as int,
                        slash_choices(old(self)@).len() as int,
                        up,
                    ) as usize,
                    ..old(self)@
                }
            },
    {
        let m = self.slash_matches();
        let n: usize = m.len();
        if n == 0 {
            return;
        }
        self.slash_sel = ring::step(self.slash_sel, n, up);
    }

    /// Completes the message to the command under the cursor and a space.
    pub fn slash_complete(&mut self)
        ensures
            match slash_choice(old(self)@) {
                Some(k) => final(self)@ == (app::AppView {
                    input: "/"@ + old(self)@.slash_commands[k].name + " "@,
                    input_cursor: text::byte_len(
                        "/"@ + old(self)@.slash_commands[k].name + " "@,
                    ) as usize,
                    slash_sel: 0,
                    ..old(self)@
                }) && editable(final(self)@),
                None => final(self)@ == old(self)@,
            },
    {
        let m = self.slash_matches();
        let n: usize = m.len();
        if n == 0 {
            return;
        }
        let k: usize = if self.slash_sel < n {
            m[self.slash_sel]
        } else {
            m[n - 1]
        };
        assert(self@.slash_commands[k as int].name == self.slash_commands@[k as int].name@);
        let mut t = "/".to_owned();
        t.push_str(&self.slash_commands[k].name);
        t.push_str(" ");
        let len = text::str_byte_len(&t);
        self.input = t;
        self.input_cursor = len;
        self.slash_sel = 0;
        proof {
            editor::offset_of_end(self@.input);
            editor::position_is_unique(self@.input, len as nat, self@.input.len() as int);
        }
    }
}

// ---- the transcript as text --------------------------------------------------------------

/// One entry as text.
pub open spec fn entry_text(b: blocks::BlockView) -> Seq<char> {
    match b {
        blocks::BlockView::User(t) => "You: "@ + t + "\n"@,
        blocks::BlockView::Assistant { agent, md } => agent + ": "@ + md + "\n"@,
        blocks::BlockView::Thinking(t) => "[thinking] "@ + t + "\n"@,
        blocks::BlockView::Plain(l) => style::line_text(l) + "\n"@,
        blocks::BlockView::Tool { name, detail, status: _ } => if detail.len() == 0 {
            "⏺ "@ + name + "\n"@
        } else {
            "⏺ "@ + name + "("@ + detail + ")\n"@
        },
        blocks::BlockView::Rule(t) => t + "\n"@,
    }
}

/// The entries as text, one after the other.
pub open spec fn entries_text(b: Seq<blocks::BlockView>) -> Seq<char>
    decreases b.len(),
{
    if b.len() == 0 {
        Seq::empty()
    } else {
        entries_text(b.drop_last()) + entry_text(b.last())
    }
}

fn entry_string(b: &Block) -> (r: String)
    ensures
        r@ == entry_text(b@),
{
    match b {
        Block::User(t) => {
            let mut s = "You: ".to_owned();
            s.push_str(t);
            s.push_str("\n");
            s
        },
        Block::Assistant { agent, md } => {
            let mut s = agent.clone();
            s.push_str(": ");
            s.push_str(md);
            s.push_str("\n");
            s
        },
        Block::Thinking(t) => {
            let mut s = "[thinking] ".to_owned();
            s.push_str(t);
            s.push_str("\n");
            s
        },
        Block::Plain(l) => {
            let mut s = l.text();
            s.push_str("\n");
            s
        },
        Block::Tool { name, detail, status: _ } => {
            let mut s = "⏺ ".to_owned();
            s.push_str(name);
            if text::char_count(detail) == 0 {
                s.push_str("\n");
            } else {
                s.push_str("(");
                s.push_str(detail);
                s.push_str(")\n");
            }
            s
        },
        Block::Rule(t) => {
            let mut s = t.clone();
            s.push_str("\n");
            s
        },
    }
}

impl App {
    /// The whole conversation as text.
    pub fn transcript_plaintext(&self) -> (r: String)
        ensures
            r@ == entries_text(self@.blocks) + (match self@.stream {
                Some(st) => st.buf + "\n"@,
                None => Seq::empty(),
            }),
    {
        let ghost all = self@.blocks;
        let mut out = String::new();
        let mut i: usize = 0;
        while i < self.blocks.len()
            invariant
                i <= self.blocks@.len(),
                all == self@.blocks,
                out@ == entries_text(all.take(i as int)),
            decreases self.blocks@.len() - i,
        {
            assert(all.take(i + 1).drop_last() =~= all.take(i as int));
            assert(all.take(i + 1).last() == self.blocks@[i as int]@);
            let t = entry_string(&self.blocks[i]);
            out.push_str(&t);
            i += 1;
        }
        assert(all.take(all.len() as int) =~= all);
        match &self.stream {
            Some(st) => {
                let mut t = st.buf.clone();
                t.push_str("\n");
                out.push_str(&t);
            },
            None => {
                assert(out@ + Seq::<char>::empty() =~= out@);
            },
        }
        out
    }
}

} // verus!
