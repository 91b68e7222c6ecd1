//! What the keys and the mouse do in a chat session.

use vstd::prelude::*;
use crate::api;
use crate::app;
use crate::app::{Answer, App, OverlayKind};
use crate::blocks;
use crate::digits;
use crate::editor;
use crate::pieces;
use crate::ring;
use crate::session;
use crate::text;

verus! {

broadcast use {
    vstd::seq::group_seq_axioms,
    vstd::string::group_string_axioms,
    text::views_push,
    text::views_empty,
};

/// A key.
#[derive(Clone, Copy, Debug, PartialEq, Eq, Structural)]
pub enum Key {
    Esc,
    Up,
    Down,
    Left,
    Right,
    Home,
    End,
    PageUp,
    PageDown,
    Enter,
    Tab,
    Backspace,
    Delete,
    Char(char),
    Other,
}

/// A key with the modifiers that matter: control, and alt or shift.
#[derive(Clone, Copy, Debug, PartialEq, Eq, Structural)]
pub struct KeyPress {
    pub key: Key,
    pub ctrl: bool,
    pub alt_or_shift: bool,
}

/// What has to be fetched or opened before the session goes on.
pub enum Defer {
    Workspaces,
    Threads,
    Findings,
    Approvals,
    Files,
    OpenFiles,
    SwitchThread(String),
    BindWorkspace(String),
    Models,
}

pub enum DeferView {
    Workspaces,
    Threads,
    Findings,
    Approvals,
    Files,
    OpenFiles,
    SwitchThread(Seq<char>),
    BindWorkspace(Seq<char>),
    Models,
}

impl View for Defer {
    type V = DeferView;

    open spec fn view(&self) -> DeferView {
        match self {
            Defer::Workspaces => DeferView::Workspaces,
            Defer::Threads => DeferView::Threads,
            Defer::Findings => DeferView::Findings,
            Defer::Approvals => DeferView::Approvals,
            Defer::Files => DeferView::Files,
            Defer::OpenFiles => DeferView::OpenFiles,
            Defer::SwitchThread(t) => DeferView::SwitchThread(t@),
            Defer::BindWorkspace(w) => DeferView::BindWorkspace(w@),
            Defer::Models => DeferView::Models,
        }
    }
}

/// What a key asks of the world outside the session.
pub enum ChatAction {
    Nothing,
    Quit,
    /// The run is to be cancelled.
    Cancel,
    Defer(Defer),
    /// The agent uses another model from now on.
    SetModel(Option<i64>),
    /// A form is complete.
    Respond { id: String, answers: Vec<(String, Answer)> },
    /// The mouse is captured or let go.
    Mouse(bool),
    /// A text goes to the clipboard.
    Copy(String),
    /// A message is complete.
    Submit(String),
}

pub enum ChatActionView {
    Nothing,
    Quit,
    Cancel,
    Defer(DeferView),
    SetModel(Option<i64>),
    Respond { id: Seq<char>, answers: Seq<(Seq<char>, blocks::AnswerView)> },
    Mouse(bool),
    Copy(Seq<char>),
    Submit(Seq<char>),
}

impl View for ChatAction {
    type V = ChatActionView;

    open spec fn view(&self) -> ChatActionView {
        match self {
            ChatAction::Nothing => ChatActionView::Nothing,
            ChatAction::Quit => ChatActionView::Quit,
            ChatAction::Cancel => ChatActionView::Cancel,
            ChatAction::Defer(d) => ChatActionView::Defer(d@),
            ChatAction::SetModel(m) => ChatActionView::SetModel(*m),
            ChatAction::Respond { id, answers } => ChatActionView::Respond {
                id: id@,
                answers: blocks::answers(answers@),
            },
            ChatAction::Mouse(b) => ChatActionView::Mouse(*b),
            ChatAction::Copy(t) => ChatActionView::Copy(t@),
            ChatAction::Submit(t) => ChatActionView::Submit(t@),
        }
    }
}

// ---- the message box as a value ---------------------------------------------------------

/// The session with that message.
pub open spec fn with_message(s: app::AppView, b: editor::Buffer) -> app::AppView {
    app::AppView {
        input: b.text,
        input_cursor: editor::offset(b.text, b.at) as usize,
        ..s
    }
}

proof fn message_is_determined(s: app::AppView, t: app::AppView)
    requires
        session::editable(t),
        session::same_but_message(s, t),
    ensures
        t == with_message(s, session::message(t)),
{
}

// ---- overlays ------------------------------------------------------------------------------

/// What control-C does: it cancels a run, or ends the session.
pub open spec fn interrupted(s: app::AppView) -> ChatActionView {
    if s.running {
        ChatActionView::Cancel
    } else {
        ChatActionView::Quit
    }
}

/// Escape in an overlay.
pub open spec fn escaped(s: app::AppView, o: blocks::OverlayView) -> app::AppView {
    session::with_overlay(
        s,
        if o.detail_open {
            Some(blocks::OverlayView { detail_open: false, ..o })
        } else {
            None
        },
    )
}

/// A page up or down in the detail view.
pub open spec fn paged(s: app::AppView, o: blocks::OverlayView, up: bool, h: u16) -> app::AppView {
    session::with_overlay(
        s,
        Some(
            if o.detail_open {
                blocks::OverlayView { dscroll: session::detail_scrolled(o.dscroll, up, h), ..o }
            } else {
                o
            },
        ),
    )
}

/// The model that a choice stands for: zero and what is no number stand for
/// the organisation's own.
pub open spec fn chosen_model(id: Seq<char>) -> Option<i64> {
    match digits::parse_i64(id) {
        Some(n) if n != 0 => Some(n as i64),
        _ => None,
    }
}

/// Enter in an overlay.
pub open spec fn entered(s: app::AppView, o: blocks::OverlayView) -> (
    app::AppView,
    ChatActionView,
) {
    let t = session::with_overlay(s, Some(session::overlay_entered(o).0));
    match session::overlay_entered(o).1 {
        Some((OverlayKind::Workspaces, id)) => (
            t,
            ChatActionView::Defer(DeferView::BindWorkspace(id)),
        ),
        Some((OverlayKind::Threads, id)) => (t, ChatActionView::Defer(DeferView::SwitchThread(id))),
        Some((OverlayKind::Models, id)) => {
            let m = chosen_model(id);
            (
                session::with_overlay(
                    app::noticed(
                        app::AppView { current_model: m, ..t },
                        "⚙ model → "@ + api::model_text(s.models, m),
                    ),
                    None,
                ),
                ChatActionView::SetModel(m),
            )
        },
        _ => (t, ChatActionView::Nothing),
    }
}

/// A key while an overlay is open. Escape goes from the detail view to the
/// list, from threads to workspaces, and from workspaces out of the session.
pub open spec fn overlay_key(s: app::AppView, o: blocks::OverlayView, k: KeyPress, h: u16) -> (
    app::AppView,
    ChatActionView,
) {
    let search = session::is_picker(o.kind);
    let quiet = ChatActionView::Nothing;
    match k.key {
        Key::Esc => if o.detail_open {
            (escaped(s, o), quiet)
        } else if o.kind == OverlayKind::Threads {
            (s, ChatActionView::Defer(DeferView::Workspaces))
        } else if o.kind == OverlayKind::Workspaces {
            (s, ChatActionView::Quit)
        } else {
            (escaped(s, o), quiet)
        },
        Key::Up => (session::with_overlay(s, Some(session::overlay_moved(o, true))), quiet),
        Key::Down => (session::with_overlay(s, Some(session::overlay_moved(o, false))), quiet),
        Key::PageUp => (paged(s, o, true, h), quiet),
        Key::PageDown => (paged(s, o, false, h), quiet),
        Key::Enter => entered(s, o),
        Key::Backspace => if search {
            (
                session::with_overlay(
                    s,
                    Some(
                        blocks::OverlayView {
                            filter: if o.filter.len() == 0 {
                                o.filter
                            } else {
                                o.filter.drop_last()
                            },
                            sel: 0,
                            ..o
                        },
                    ),
                ),
                quiet,
            )
        } else {
            (s, quiet)
        },
        Key::Char(c) => if k.ctrl {
            if c == 'c' {
                (s, interrupted(s))
            } else if c == 'p' {
                if o.kind == OverlayKind::Models {
                    (session::with_overlay(s, None), quiet)
                } else {
                    (s, ChatActionView::Defer(DeferView::Models))
                }
            } else {
                (s, quiet)
            }
        } else if search {
            (
                session::with_overlay(
                    s,
                    Some(blocks::OverlayView { filter: o.filter.push(c), sel: 0, ..o }),
                ),
                quiet,
            )
        } else if c == 'k' {
            (session::with_overlay(s, Some(session::overlay_moved(o, true))), quiet)
        } else if c == 'j' {
            (session::with_overlay(s, Some(session::overlay_moved(o, false))), quiet)
        } else {
            (s, quiet)
        },
        _ => (s, quiet),
    }
}

// ---- forms -----------------------------------------------------------------------------------

/// A key while the agent waits for a form.
pub open spec fn form_key(s: app::AppView, k: KeyPress) -> (app::AppView, ChatActionView) {
    let b = session::message(s);
    let quiet = ChatActionView::Nothing;
    match k.key {
        Key::Esc => (s, ChatActionView::Quit),
        Key::Char(c) => if k.ctrl {
            (s, quiet)
        } else {
            (with_message(s, editor::inserted(b, c)), quiet)
        },
        Key::Backspace => (with_message(s, editor::backspaced(b)), quiet),
        Key::Left => (with_message(s, editor::moved_left(b)), quiet),
        Key::Right => (with_message(s, editor::moved_right(b)), quiet),
        Key::Home => (with_message(s, editor::moved_home(b)), quiet),
        Key::End => (with_message(s, editor::moved_end(b)), quiet),
        Key::Enter => {
            let t = app::AppView { input: Seq::empty(), input_cursor: 0, ..s };
            let r = app::submitted(t, pieces::trim(s.input));
            (
                r.0,
                match r.1 {
                    Some((id, answers)) => ChatActionView::Respond { id, answers },
                    None => quiet,
                },
            )
        },
        _ => (s, quiet),
    }
}

// ---- slash commands ----------------------------------------------------------------------------

/// The popup of slash commands takes the key.
pub open spec fn popup_takes(s: app::AppView, k: KeyPress) -> bool {
    session::slash_choices(s).len() > 0 && !k.ctrl && (k.key == Key::Up || k.key == Key::Down
        || k.key == Key::Tab || k.key == Key::Enter)
}

/// A key that the popup takes.
pub open spec fn popup_key(s: app::AppView, k: KeyPress) -> app::AppView {
    let n = session::slash_choices(s).len() as int;
    if k.key == Key::Up || k.key == Key::Down {
        app::AppView {
            slash_sel: ring::stepped(s.slash_sel as int, n, k.key == Key::Up) as usize,
            ..s
        }
    } else {
        match session::slash_choice(s) {
            Some(i) => {
                let t = "/"@ + s.slash_commands[i].name + " "@;
                app::AppView {
                    input: t,
                    input_cursor: text::byte_len(t) as usize,
                    slash_sel: 0,
                    ..s
                }
            },
            None => s,
        }
    }
}

// ---- plain chat ------------------------------------------------------------------------------------

/// What a letter does together with control.
pub open spec fn control_key(s: app::AppView, c: char) -> (app::AppView, ChatActionView) {
    let quiet = ChatActionView::Nothing;
    if c == 'c' {
        (s, interrupted(s))
    } else if c == 't' {
        (app::AppView { show_thinking: !s.show_thinking, ..s }, quiet)
    } else if c == 'r' {
        (app::AppView { markdown: !s.markdown, ..s }, quiet)
    } else if c == 's' {
        (app::AppView { select_mode: !s.select_mode, ..s }, ChatActionView::Mouse(s.select_mode))
    } else if c == 'w' {
        (s, ChatActionView::Defer(DeferView::Workspaces))
    } else if c == 'o' {
        (s, ChatActionView::Defer(DeferView::Threads))
    } else if c == 'p' {
        (s, ChatActionView::Defer(DeferView::Models))
    } else if c == 'f' {
        (s, ChatActionView::Defer(DeferView::Findings))
    } else if c == 'a' {
        (s, ChatActionView::Defer(DeferView::Approvals))
    } else if c == 'l' {
        (s, ChatActionView::Defer(DeferView::Files))
    } else if c == 'e' {
        (s, ChatActionView::Defer(DeferView::OpenFiles))
    } else if c == 'y' {
        (s, ChatActionView::Copy(transcript(s)))
    } else if c == 'j' {
        (with_message(s, editor::inserted(session::message(s), '\n')), quiet)
    } else {
        (s, quiet)
    }
}

/// The conversation as text.
pub open spec fn transcript(s: app::AppView) -> Seq<char> {
    session::entries_text(s.blocks) + (match s.stream {
        Some(st) => st.buf + "\n"@,
        None => Seq::empty(),
    })
}

/// The height of a page; at least one line.
pub open spec fn page_height(h: u16) -> u16 {
    if h == 0 {
        1
    } else {
        h
    }
}

/// A key in plain chat. Escape goes back to the end of the transcript, and
/// from there to the threads. Up and down scroll at the edges of the message.
pub open spec fn chat_key(s: app::AppView, k: KeyPress, h: u16) -> (app::AppView, ChatActionView) {
    let b = session::message(s);
    let quiet = ChatActionView::Nothing;
    match k.key {
        Key::Esc => if s.pinned {
            (
                app::AppView { pinned: false, follow: true, scroll: s.max_scroll, ..s },
                quiet,
            )
        } else {
            (s, ChatActionView::Defer(DeferView::Threads))
        },
        Key::Char(c) => if k.ctrl {
            control_key(s, c)
        } else {
            (with_message(s, editor::inserted(b, c)), quiet)
        },
        Key::Enter => if k.alt_or_shift {
            (with_message(s, editor::inserted(b, '\n')), quiet)
        } else if pieces::is_blank(s.input) {
            (s, quiet)
        } else {
            (s, ChatActionView::Submit(pieces::trim(s.input)))
        },
        Key::Backspace => (with_message(s, editor::backspaced(b)), quiet),
        Key::Delete => (with_message(s, editor::deleted(b)), quiet),
        Key::Left => (with_message(s, editor::moved_left(b)), quiet),
        Key::Right => (with_message(s, editor::moved_right(b)), quiet),
        Key::Home => (with_message(s, editor::moved_home(b)), quiet),
        Key::End => (with_message(s, editor::moved_end(b)), quiet),
        Key::PageUp => (session::scrolled(s, true, page_height(h)), quiet),
        Key::PageDown => (session::scrolled(s, false, page_height(h)), quiet),
        Key::Up => if editor::can_move_up(b) {
            (with_message(s, editor::moved_up(b)), quiet)
        } else {
            (session::scrolled(s, true, 1), quiet)
        },
        Key::Down => if editor::can_move_down(b) {
            (with_message(s, editor::moved_down(b)), quiet)
        } else {
            (session::scrolled(s, false, 1), quiet)
        },
        _ => (s, quiet),
    }
}

/// A key, wherever the session stands.
pub open spec fn key_taken(s: app::AppView, k: KeyPress, h: u16) -> (app::AppView, ChatActionView) {
    match s.overlay {
        Some(o) => overlay_key(s, o, k, h),
        None => if s.pending is Some {
            form_key(s, k)
        } else if popup_takes(s, k) {
            (popup_key(s, k), ChatActionView::Nothing)
        } else {
            chat_key(s, k, h)
        },
    }
}

fn read_model(id: &str) -> (r: Option<i64>)
    ensures
        r == chosen_model(id@),
{
    match digits::str_to_i64(id) {
        Some(n) => {
            if n == 0 {
                None
            } else {
                Some(n)
            }
        },
        None => None,
    }
}

impl App {
    fn interrupt_action(&self) -> (r: ChatAction)
        ensures
            r@ == interrupted(self@),
    {
        if self.running {
            ChatAction::Cancel
        } else {
            ChatAction::Quit
        }
    }

    fn enter_overlay(&mut self) -> (r: ChatAction)
        requires
            old(self)@.overlay is Some,
        ensures
            (final(self)@, r@) == entered(old(self)@, old(self)@.overlay->0),
    {
        match self.overlay_enter() {
            Some((kind, id)) => match kind {
                OverlayKind::Workspaces => ChatAction::Defer(Defer::BindWorkspace(id)),
                OverlayKind::Threads => ChatAction::Defer(Defer::SwitchThread(id)),
                OverlayKind::Models => {
                    let m = read_model(&id);
                    self.set_model(m);
                    let mut t = "⚙ model → ".to_owned();
                    let name = api::model_name(&self.models, m);
                    t.push_str(&name);
                    self.notice(&t);
                    self.close_overlay();
                    ChatAction::SetModel(m)
                },
                _ => ChatAction::Nothing,
            },
            None => ChatAction::Nothing,
        }
    }

    fn key_in_overlay(&mut self, k: KeyPress, h: u16) -> (r: ChatAction)
        requires
            old(self)@.overlay is Some,
        ensures
            (final(self)@, r@) == overlay_key(old(self)@, old(self)@.overlay->0, k, h),
    {
        match k.key {
            Key::Esc => {
                if self.overlay_detail_open() {
                    let _ = self.overlay_esc();
                    ChatAction::Nothing
                } else {
                    match self.overlay_kind() {
                        Some(OverlayKind::Threads) => ChatAction::Defer(Defer::Workspaces),
                        Some(OverlayKind::Workspaces) => ChatAction::Quit,
                        _ => {
                            let _ = self.overlay_esc();
                            ChatAction::Nothing
                        },
                    }
                }
            },
            Key::Up => {
                self.overlay_move(true);
                ChatAction::Nothing
            },
            Key::Down => {
                self.overlay_move(false);
                ChatAction::Nothing
            },
            Key::PageUp => {
                self.overlay_page(true, h);
                ChatAction::Nothing
            },
            Key::PageDown => {
                self.overlay_page(false, h);
                ChatAction::Nothing
            },
            Key::Enter => self.enter_overlay(),
            Key::Backspace => {
                if self.overlay_searchable() {
                    self.overlay_filter_pop();
                }
                ChatAction::Nothing
            },
            Key::Char(c) => {
                if k.ctrl {
                    if c == 'c' {
                        self.interrupt_action()
                    } else if c == 'p' {
                        match self.overlay_kind() {
                            Some(OverlayKind::Models) => {
                                self.close_overlay();
                                ChatAction::Nothing
                            },
                            _ => ChatAction::Defer(Defer::Models),
                        }
                    } else {
                        ChatAction::Nothing
                    }
                } else if self.overlay_searchable() {
                    self.overlay_filter_push(c);
                    ChatAction::Nothing
                } else {
                    if c == 'k' {
                        self.overlay_move(true);
                    } else if c == 'j' {
                        self.overlay_move(false);
                    }
                    ChatAction::Nothing
                }
            },
            _ => ChatAction::Nothing,
        }
    }

    fn key_in_form(&mut self, k: KeyPress) -> (r: ChatAction)
        requires
            session::editable(old(self)@),
        ensures
            (final(self)@, r@) == form_key(old(self)@, k),
            session::editable(final(self)@),
    {
        let ghost start = self@;
        match k.key {
            Key::Esc => {
                return ChatAction::Quit;
            },
            Key::Char(c) => {
                if k.ctrl {
                    return ChatAction::Nothing;
                }
                self.input_insert_char(c);
            },
            Key::Backspace => {
                self.input_backspace();
            },
            Key::Left => {
                self.input_left();
            },
            Key::Right => {
                self.input_right();
            },
            Key::Home => {
                self.input_home();
            },
            Key::End => {
                self.input_end();
            },
            Key::Enter => {
                let raw = self.input.clone();
                self.input_clear();
                let t = pieces::str_trim(&raw);
                return match self.submit_interrupt_value(&t) {
                    Some((id, answers)) => ChatAction::Respond { id, answers },
                    None => ChatAction::Nothing,
                };
            },
            _ => {
                return ChatAction::Nothing;
            },
        }
        proof {
            message_is_determined(start, self@);
        }
        ChatAction::Nothing
    }

    fn key_in_popup(&mut self, k: KeyPress)
        requires
            popup_takes(old(self)@, k),
            session::editable(old(self)@),
        ensures
            final(self)@ == popup_key(old(self)@, k),
            session::editable(final(self)@),
    {
        match k.key {
            Key::Up => {
                self.slash_move(true);
            },
            Key::Down => {
                self.slash_move(false);
            },
            _ => {
                self.slash_complete();
            },
        }
    }

    fn key_with_control(&mut self, c: char) -> (r: ChatAction)
        requires
            session::editable(old(self)@),
        ensures
            (final(self)@, r@) == control_key(old(self)@, c),
            session::editable(final(self)@),
    {
        let ghost start = self@;
        if c == 'c' {
            self.interrupt_action()
        } else if c == 't' {
            self.show_thinking = !self.show_thinking;
            ChatAction::Nothing
        } else if c == 'r' {
            self.markdown = !self.markdown;
            ChatAction::Nothing
        } else if c == 's' {
            self.select_mode = !self.select_mode;
            ChatAction::Mouse(!self.select_mode)
        } else if c == 'w' {
            ChatAction::Defer(Defer::Workspaces)
        } else if c == 'o' {
            ChatAction::Defer(Defer::Threads)
        } else if c == 'p' {
            ChatAction::Defer(Defer::Models)
        } else if c == 'f' {
            ChatAction::Defer(Defer::Findings)
        } else if c == 'a' {
            ChatAction::Defer(Defer::Approvals)
        } else if c == 'l' {
            ChatAction::Defer(Defer::Files)
        } else if c == 'e' {
            ChatAction::Defer(Defer::OpenFiles)
        } else if c == 'y' {
            ChatAction::Copy(self.transcript_plaintext())
        } else if c == 'j' {
            self.input_newline();
            proof {
                message_is_determined(start, self@);
            }
            ChatAction::Nothing
        } else {
            ChatAction::Nothing
        }
    }

    fn key_in_chat(&mut self, k: KeyPress, h: u16) -> (r: ChatAction)
        requires
            session::editable(old(self)@),
        ensures
            (final(self)@, r@) == chat_key(old(self)@, k, h),
            session::editable(final(self)@),
    {
        let ghost start = self@;
        match k.key {
            Key::Esc => {
                if self.is_pinned() {
                    self.jump_to_bottom();
                    return ChatAction::Nothing;
                }
                return ChatAction::Defer(Defer::Threads);
            },
            Key::Char(c) => {
                if k.ctrl {
                    return self.key_with_control(c);
                }
                self.input_insert_char(c);
            },
            Key::Enter => {
                if k.alt_or_shift {
                    self.input_newline();
                } else {
                    let t = pieces::str_trim(&self.input);
                    if text::char_count(&t) == 0 {
                        return ChatAction::Nothing;
                    }
                    return ChatAction::Submit(t);
                }
            },
            Key::Backspace => {
                self.input_backspace();
            },
            Key::Delete => {
                self.input_delete();
            },
            Key::Left => {
                self.input_left();
            },
            Key::Right => {
                self.input_right();
            },
            Key::Home => {
                self.input_home();
            },
            Key::End => {
                self.input_end();
            },
            Key::PageUp => {
                self.page(true, h);
                return ChatAction::Nothing;
            },
            Key::PageDown => {
                self.page(false, h);
                return ChatAction::Nothing;
            },
            Key::Up => {
                if !self.input_up() {
                    self.scroll_line(true);
                    return ChatAction::Nothing;
                }
            },
            Key::Down => {
                if !self.input_down() {
                    self.scroll_line(false);
                    return ChatAction::Nothing;
                }
            },
            _ => {
                return ChatAction::Nothing;
            },
        }
        proof {
            message_is_determined(start, self@);
        }
        ChatAction::Nothing
    }

    /// Takes a key in a window whose pages have `h` lines, and says what it
    /// asks of the world outside.
    pub fn on_key(&mut self, k: KeyPress, h: u16) -> (r: ChatAction)
        requires
            session::editable(old(self)@),
        ensures
            (final(self)@, r@) == key_taken(old(self)@, k, h),
            session::editable(final(self)@),
    {
        if self.overlay_active() {
            let ghost start = self@;
            let r = self.key_in_overlay(k, h);
            proof {
                overlay_keeps_message(start, start.overlay->0, k, h);
            }
            return r;
        }
        if self.awaiting_input() {
            return self.key_in_form(k);
        }
        let opens = self.slash_open();
        let taken = match k.key {
            Key::Up | Key::Down | Key::Tab | Key::Enter => true,
            _ => false,
        };
        if opens && taken && !k.ctrl {
            self.key_in_popup(k);
            return ChatAction::Nothing;
        }
        self.key_in_chat(k, h)
    }

    /// Takes a turn of the wheel.
    pub fn on_wheel(&mut self, up: bool)
        ensures
            final(self)@ == match old(self)@.overlay {
                Some(o) => session::with_overlay(
                    old(self)@,
                    Some(session::overlay_moved(o, up)),
                ),
                None => session::scrolled(old(self)@, up, 3),
            },
    {
        if self.overlay_active() {
            self.overlay_move(up);
        } else {
            self.scroll_lines(up, 3);
        }
    }

    /// Moves the working sign on while a run is going on.
    pub fn on_tick(&mut self)
        ensures
            final(self)@ == if old(self)@.running {
                app::AppView {
                    spinner: old(self)@.spinner.wrapping_add(1),
                    ..old(self)@
                }
            } else {
                old(self)@
            },
    {
        if self.running {
            self.tick();
        }
    }

    /// A message goes out at time `now`.
    pub fn send_message(&mut self, t: &str, now: u64)
        ensures
            final(self)@ == message_sent(old(self)@, t@, now),
    {
        self.echo_user(t, now);
        self.running = true;
        self.status = "sending…".to_owned();
    }

    /// A complete message: its files are uploaded where it is made of paths of
    /// files and a workspace is bound, else it is sent. Says whether it is
    /// uploaded.
    pub fn submit_message(&mut self, t: &str, files: bool, now: u64) -> (r: bool)
        ensures
            r == (files && old(self)@.has_workspace),
            final(self)@ == if r {
                app::AppView { input: Seq::empty(), input_cursor: 0, ..old(self)@ }
            } else {
                app::AppView {
                    input: Seq::empty(),
                    input_cursor: 0,
                    ..message_sent(old(self)@, t@, now)
                }
            },
    {
        if files && self.has_workspace {
            self.input_clear();
            true
        } else {
            self.send_message(t, now);
            self.input_clear();
            false
        }
    }
}

/// A message that was sent.
pub open spec fn message_sent(s: app::AppView, t: Seq<char>, now: u64) -> app::AppView {
    app::AppView { running: true, status: "sending…"@, ..app::user_echoed(s, t, now) }
}

proof fn overlay_keeps_message(s: app::AppView, o: blocks::OverlayView, k: KeyPress, h: u16)
    ensures
        overlay_key(s, o, k, h).0.input == s.input,
        overlay_key(s, o, k, h).0.input_cursor == s.input_cursor,
{
}

/// Typing a character in plain chat and taking it back leaves the session as it
/// was.
pub proof fn backspace_undoes_a_letter(s: app::AppView, c: char, h: u16)
    requires
        session::editable(s),
        s.overlay is None,
        s.pending is None,
        text::byte_len(s.input) + 4 <= usize::MAX,
    ensures
        ({
            let typed = KeyPress { key: Key::Char(c), ctrl: false, alt_or_shift: false };
            let taken = KeyPress { key: Key::Backspace, ctrl: false, alt_or_shift: false };
            key_taken(key_taken(s, typed, h).0, taken, h).0 == s
        }),
{
    let b = session::message(s);
    let t = with_message(s, editor::inserted(b, c));
    let text = b.text.insert(b.at, c);
    editor::insertion_grows(b, c);
    editor::offset_of_end(b.text);
    editor::offset_of_end(text);
    editor::offsets_stay_in(text, b.at + 1);
    editor::position_is_unique(text, editor::offset(text, b.at + 1), b.at + 1);
    editor::backspace_undoes_insert(b, c);
    message_is_determined(s, s);
    assert(session::message(t) == editor::inserted(b, c));
}

/// Control-C never ends the session while a run is going on.
pub proof fn a_run_is_cancelled_before_the_session_ends(s: app::AppView, h: u16)
    requires
        s.running,
        s.pending is None || s.overlay is Some,
    ensures
        key_taken(s, KeyPress { key: Key::Char('c'), ctrl: true, alt_or_shift: false }, h)
            == (s, ChatActionView::Cancel),
{
}

pub open spec fn escape() -> KeyPress {
    KeyPress { key: Key::Esc, ctrl: false, alt_or_shift: false }
}

pub open spec fn control(c: char) -> KeyPress {
    KeyPress { key: Key::Char(c), ctrl: true, alt_or_shift: false }
}

/// Escape leads back: from the chat to the threads, from the threads to the
/// workspaces, and from the workspaces out. Nothing else changes on the way.
pub proof fn escape_leads_back(s: app::AppView, h: u16)
    ensures
        s.overlay is None && s.pending is None && !s.pinned ==> key_taken(s, escape(), h) == (
            s,
            ChatActionView::Defer(DeferView::Threads),
        ),
        s.overlay matches Some(o) && !o.detail_open && o.kind == OverlayKind::Threads ==> key_taken(
            s,
            escape(),
            h,
        ) == (s, ChatActionView::Defer(DeferView::Workspaces)),
        s.overlay matches Some(o) && !o.detail_open && o.kind == OverlayKind::Workspaces
            ==> key_taken(s, escape(), h) == (s, ChatActionView::Quit),
{
}

/// In the chat each list has a key of its own, which leaves the session as it
/// is.
pub proof fn keys_ask_for_their_lists(s: app::AppView, h: u16)
    requires
        s.overlay is None,
        s.pending is None,
    ensures
        key_taken(s, control('w'), h) == (s, ChatActionView::Defer(DeferView::Workspaces)),
        key_taken(s, control('o'), h) == (s, ChatActionView::Defer(DeferView::Threads)),
        key_taken(s, control('f'), h) == (s, ChatActionView::Defer(DeferView::Findings)),
        key_taken(s, control('a'), h) == (s, ChatActionView::Defer(DeferView::Approvals)),
        key_taken(s, control('l'), h) == (s, ChatActionView::Defer(DeferView::Files)),
        key_taken(s, control('e'), h) == (s, ChatActionView::Defer(DeferView::OpenFiles)),
        key_taken(s, control('y'), h) == (s, ChatActionView::Copy(transcript(s))),
{
}

/// The keys that show and hide thoughts, and that switch the renderer on and
/// off, undo themselves.
pub proof fn toggles_undo_themselves(s: app::AppView, h: u16, c: char)
    requires
        s.overlay is None,
        s.pending is None,
        c == 't' || c == 'r',
    ensures
        key_taken(key_taken(s, control(c), h).0, control(c), h).0 == s,
        key_taken(s, control(c), h).0 != s,
{
}

/// What a key sends is the message without the white space around it, and never
/// nothing.
pub proof fn sent_messages_say_something(s: app::AppView, k: KeyPress, h: u16, t: Seq<char>)
    requires
        key_taken(s, k, h).1 == ChatActionView::Submit(t),
    ensures
        t == pieces::trim(s.input),
        t.len() > 0,
        k.key == Key::Enter && !popup_takes(s, k),
{
}

} // verus!
