//! The events that a running agent sends to the client.

use vstd::prelude::*;
use crate::text;

verus! {

/// One item of an agent's stream.
pub struct StreamItem {
    pub kind: String,
    pub text: Option<String>,
    pub agent: Option<String>,
    pub tool_name: Option<String>,
    pub detail: Option<String>,
    pub status: Option<String>,
    pub task_id: Option<String>,
    /// The tool runs on this machine.
    pub local: bool,
}

pub struct ItemView {
    pub kind: Seq<char>,
    pub text: Option<Seq<char>>,
    pub agent: Option<Seq<char>>,
    pub tool_name: Option<Seq<char>>,
    pub detail: Option<Seq<char>>,
    pub status: Option<Seq<char>>,
    pub task_id: Option<Seq<char>>,
    pub local: bool,
}

impl View for StreamItem {
    type V = ItemView;

    open spec fn view(&self) -> ItemView {
        ItemView {
            kind: self.kind@,
            text: text::opt_view(self.text),
            agent: text::opt_view(self.agent),
            tool_name: text::opt_view(self.tool_name),
            detail: text::opt_view(self.detail),
            status: text::opt_view(self.status),
            task_id: text::opt_view(self.task_id),
            local: self.local,
        }
    }
}

/// A field of a form that the agent wants filled in.
pub struct Field {
    pub key: String,
    pub label: String,
    pub ftype: String,
}

pub struct FieldView {
    pub key: Seq<char>,
    pub label: Seq<char>,
    pub ftype: Seq<char>,
}

impl View for Field {
    type V = FieldView;

    open spec fn view(&self) -> FieldView {
        FieldView { key: self.key@, label: self.label@, ftype: self.ftype@ }
    }
}

pub open spec fn form(v: Seq<Field>) -> Seq<FieldView> {
    v.map_values(|f: Field| f@)
}

/// What the connection to the agent reports.
pub enum AppEvent {
    Connected,
    Disconnected(String),
    RunStarted,
    /// Tokens used: by one call, or by the whole run where it is final.
    Credits { tokens: i64, final_run: bool },
    RunFinished(String),
    Notice(String),
    Error(String),
    LocalToolDone { name: String, ms: u64, exit: Option<i32>, err: Option<String> },
    Interrupt { id: String, title: String, message: String, fields: Vec<Field> },
    Stream(StreamItem),
}

pub enum EventView {
    Connected,
    Disconnected(Seq<char>),
    RunStarted,
    Credits { tokens: i64, final_run: bool },
    RunFinished(Seq<char>),
    Notice(Seq<char>),
    Error(Seq<char>),
    LocalToolDone { name: Seq<char>, ms: u64, exit: Option<i32>, err: Option<Seq<char>> },
    Interrupt { id: Seq<char>, title: Seq<char>, message: Seq<char>, fields: Seq<FieldView> },
    Stream(ItemView),
}

impl View for AppEvent {
    type V = EventView;

    open spec fn view(&self) -> EventView {
        match self {
            AppEvent::Connected => EventView::Connected,
            AppEvent::Disconnected(w) => EventView::Disconnected(w@),
            AppEvent::RunStarted => EventView::RunStarted,
            AppEvent::Credits { tokens, final_run } => EventView::Credits {
                tokens: *tokens,
                final_run: *final_run,
            },
            AppEvent::RunFinished(l) => EventView::RunFinished(l@),
            AppEvent::Notice(n) => EventView::Notice(n@),
            AppEvent::Error(e) => EventView::Error(e@),
            AppEvent::LocalToolDone { name, ms, exit, err } => EventView::LocalToolDone {
                name: name@,
                ms: *ms,
                exit: *exit,
                err: text::opt_view(*err),
            },
            AppEvent::Interrupt { id, title, message, fields } => EventView::Interrupt {
                id: id@,
                title: title@,
                message: message@,
                fields: form(fields@),
            },
            AppEvent::Stream(i) => EventView::Stream(i@),
        }
    }
}

} // verus!
