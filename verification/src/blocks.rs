//! What a chat transcript and its side panels are made of.

use vstd::prelude::*;
use crate::api::SlashCmd;
use crate::pulse;
use crate::pulse::Field;
use crate::style;
use crate::style::{Color, Line};
use crate::text;

verus! {

broadcast use {vstd::seq::group_seq_axioms, text::views_push, text::views_empty};

// ---- transcript ------------------------------------------------------------------

/// Where a tool call stands.
#[derive(Clone, Copy, Debug, PartialEq, Eq, Structural)]
pub enum ToolStatus {
    Running,
    Done,
    Failed,
}

/// One entry of the transcript.
pub enum Block {
    User(String),
    Assistant { agent: String, md: String },
    Thinking(String),
    Plain(Line),
    Rule(String),
    Tool { name: String, detail: String, status: ToolStatus },
}

pub enum BlockView {
    User(Seq<char>),
    Assistant { agent: Seq<char>, md: Seq<char> },
    Thinking(Seq<char>),
    Plain(Seq<style::SpanView>),
    Rule(Seq<char>),
    Tool { name: Seq<char>, detail: Seq<char>, status: ToolStatus },
}

impl View for Block {
    type V = BlockView;

    open spec fn view(&self) -> BlockView {
        match self {
            Block::User(t) => BlockView::User(t@),
            Block::Assistant { agent, md } => BlockView::Assistant { agent: agent@, md: md@ },
            Block::Thinking(t) => BlockView::Thinking(t@),
            Block::Plain(l) => BlockView::Plain(l@),
            Block::Rule(t) => BlockView::Rule(t@),
            Block::Tool { name, detail, status } => BlockView::Tool {
                name: name@,
                detail: detail@,
                status: *status,
            },
        }
    }
}

pub open spec fn blocks(v: Seq<Block>) -> Seq<BlockView> {
    v.map_values(|b: Block| b@)
}

pub broadcast proof fn blocks_push(v: Seq<Block>, b: Block)
    ensures
        #[trigger] blocks(v.push(b)) == blocks(v).push(b@),
{
    assert(blocks(v.push(b)) =~= blocks(v).push(b@));
}

pub broadcast proof fn blocks_empty()
    ensures
        #[trigger] blocks(Seq::<Block>::empty()) == Seq::<BlockView>::empty(),
{
    assert(blocks(Seq::<Block>::empty()) =~= Seq::<BlockView>::empty());
}

/// The reply that is being received.
pub struct Stream {
    pub thinking: bool,
    pub agent: String,
    pub buf: String,
}

pub struct StreamView {
    pub thinking: bool,
    pub agent: Seq<char>,
    pub buf: Seq<char>,
}

pub open spec fn stream_view(s: Option<Stream>) -> Option<StreamView> {
    match s {
        Some(st) => Some(StreamView { thinking: st.thinking, agent: st.agent@, buf: st.buf@ }),
        None => None,
    }
}

// ---- tasks -----------------------------------------------------------------------

/// Where a task of the agent stands.
#[derive(Clone, Copy, Debug, PartialEq, Eq, Structural)]
pub enum TaskStatus {
    Created,
    Running,
    Completed,
    Failed,
}

pub open spec fn task_icon(s: TaskStatus) -> Seq<char> {
    match s {
        TaskStatus::Created => "○"@,
        TaskStatus::Running => "⟳"@,
        TaskStatus::Completed => "✓"@,
        TaskStatus::Failed => "✗"@,
    }
}

pub open spec fn task_color(s: TaskStatus) -> Color {
    match s {
        TaskStatus::Created => Color::DarkGray,
        TaskStatus::Running => Color::Cyan,
        TaskStatus::Completed => Color::Green,
        TaskStatus::Failed => Color::Red,
    }
}

impl TaskStatus {
    /// The sign of the status in the task panel.
    pub fn icon(self) -> (r: &'static str)
        ensures
            r@ == task_icon(self),
    {
        match self {
            TaskStatus::Created => "○",
            TaskStatus::Running => "⟳",
            TaskStatus::Completed => "✓",
            TaskStatus::Failed => "✗",
        }
    }

    /// The colour of the status in the task panel.
    pub fn color(self) -> (r: Color)
        ensures
            r == task_color(self),
    {
        match self {
            TaskStatus::Created => Color::DarkGray,
            TaskStatus::Running => Color::Cyan,
            TaskStatus::Completed => Color::Green,
            TaskStatus::Failed => Color::Red,
        }
    }
}

/// A task in the panel.
#[derive(Clone)]
pub struct Task {
    pub id: String,
    pub title: String,
    pub status: TaskStatus,
    pub agent: Option<String>,
}

pub struct TaskView {
    pub id: Seq<char>,
    pub title: Seq<char>,
    pub status: TaskStatus,
    pub agent: Option<Seq<char>>,
}

impl View for Task {
    type V = TaskView;

    open spec fn view(&self) -> TaskView {
        TaskView {
            id: self.id@,
            title: self.title@,
            status: self.status,
            agent: text::opt_view(self.agent),
        }
    }
}

pub open spec fn tasks(v: Seq<Task>) -> Seq<TaskView> {
    v.map_values(|t: Task| t@)
}

pub broadcast proof fn tasks_push(v: Seq<Task>, t: Task)
    ensures
        #[trigger] tasks(v.push(t)) == tasks(v).push(t@),
{
    assert(tasks(v.push(t)) =~= tasks(v).push(t@));
}

pub broadcast proof fn tasks_empty()
    ensures
        #[trigger] tasks(Seq::<Task>::empty()) == Seq::<TaskView>::empty(),
{
    assert(tasks(Seq::<Task>::empty()) =~= Seq::<TaskView>::empty());
}

// ---- overlays --------------------------------------------------------------------

#[derive(Clone, Copy, Debug, PartialEq, Eq, Structural)]
pub enum OverlayKind {
    Findings,
    Approvals,
    Threads,
    Workspaces,
    Files,
    Models,
}

/// One row of an overlay: its label, what is shown when it is opened, and the
/// id that choosing it hands back.
pub struct OverlayItem {
    pub label: String,
    pub detail: Vec<String>,
    pub action: Option<String>,
}

pub struct OverlayItemView {
    pub label: Seq<char>,
    pub detail: Seq<Seq<char>>,
    pub action: Option<Seq<char>>,
}

impl View for OverlayItem {
    type V = OverlayItemView;

    open spec fn view(&self) -> OverlayItemView {
        OverlayItemView {
            label: self.label@,
            detail: text::views(self.detail@),
            action: text::opt_view(self.action),
        }
    }
}

pub open spec fn overlay_items(v: Seq<OverlayItem>) -> Seq<OverlayItemView> {
    v.map_values(|i: OverlayItem| i@)
}

pub broadcast proof fn overlay_items_push(v: Seq<OverlayItem>, i: OverlayItem)
    ensures
        #[trigger] overlay_items(v.push(i)) == overlay_items(v).push(i@),
{
    assert(overlay_items(v.push(i)) =~= overlay_items(v).push(i@));
}

pub broadcast proof fn overlay_items_empty()
    ensures
        #[trigger] overlay_items(Seq::<OverlayItem>::empty()) == Seq::<OverlayItemView>::empty(),
{
    assert(overlay_items(Seq::<OverlayItem>::empty()) =~= Seq::<OverlayItemView>::empty());
}

/// A list over the transcript, with a search filter over its labels.
pub struct Overlay {
    pub kind: OverlayKind,
    pub title: String,
    pub items: Vec<OverlayItem>,
    /// The position of the cursor among the items that the filter keeps.
    pub sel: usize,
    pub detail_open: bool,
    pub dscroll: u16,
    pub filter: String,
}

pub struct OverlayView {
    pub kind: OverlayKind,
    pub title: Seq<char>,
    pub items: Seq<OverlayItemView>,
    pub sel: usize,
    pub detail_open: bool,
    pub dscroll: u16,
    pub filter: Seq<char>,
}

impl View for Overlay {
    type V = OverlayView;

    open spec fn view(&self) -> OverlayView {
        OverlayView {
            kind: self.kind,
            title: self.title@,
            items: overlay_items(self.items@),
            sel: self.sel,
            detail_open: self.detail_open,
            dscroll: self.dscroll,
            filter: self.filter@,
        }
    }
}

pub open spec fn overlay_view(o: Option<Overlay>) -> Option<OverlayView> {
    match o {
        Some(v) => Some(v@),
        None => None,
    }
}

/// The filter keeps an item: it is empty, or the label holds it whatever the
/// case of the letters.
pub open spec fn keeps(o: OverlayView, i: int) -> bool {
    o.filter.len() == 0 || text::contains(text::lowercase(o.items[i].label), text::lowercase(o.filter))
}

/// The positions among the first `n` items that the filter keeps, in order.
pub open spec fn visible_among(o: OverlayView, n: int) -> Seq<usize>
    decreases n,
{
    if n <= 0 {
        Seq::empty()
    } else if keeps(o, n - 1) {
        visible_among(o, n - 1).push((n - 1) as usize)
    } else {
        visible_among(o, n - 1)
    }
}

/// The positions of the items that the filter keeps, in order.
pub open spec fn visible_items(o: OverlayView) -> Seq<usize> {
    visible_among(o, o.items.len() as int)
}

/// The position of the item under the cursor.
pub open spec fn item_under_cursor(o: OverlayView) -> Option<usize> {
    if o.sel < visible_items(o).len() {
        Some(visible_items(o)[o.sel as int])
    } else {
        None
    }
}

/// Every visible position is one of the list, and they stand in order.
pub proof fn visible_positions(o: OverlayView, n: int)
    requires
        0 <= n <= o.items.len() <= usize::MAX,
    ensures
        visible_among(o, n).len() <= n,
        forall|i: int|
            0 <= i < visible_among(o, n).len() ==> (#[trigger] visible_among(o, n)[i]) < n && keeps(
                o,
                visible_among(o, n)[i] as int,
            ),
        forall|i: int, j: int|
            0 <= i < j < visible_among(o, n).len() ==> visible_among(o, n)[i] < visible_among(o, n)[j],
    decreases n,
{
    if n > 0 {
        visible_positions(o, n - 1);
    }
}

impl Overlay {
    /// The positions of the items that the filter keeps, in order.
    pub fn visible(&self) -> (r: Vec<usize>)
        ensures
            r@ == visible_items(self@),
    {
        let mut out: Vec<usize> = Vec::new();
        let all = self.filter.as_str().is_empty();
        let needle = text::to_lowercase(&self.filter);
        let mut i: usize = 0;
        while i < self.items.len()
            invariant
                i <= self.items@.len(),
                all == (self.filter@.len() == 0),
                needle@ == text::lowercase(self.filter@),
                out@ == visible_among(self@, i as int),
            decreases self.items@.len() - i,
        {
            let shown = if all {
                true
            } else {
                let label = text::to_lowercase(&self.items[i].label);
                text::str_contains(&label, &needle)
            };
            assert(self@.items[i as int].label == self.items@[i as int].label@);
            if shown {
                out.push(i);
            }
            i += 1;
        }
        out
    }

    /// The position of the item under the cursor.
    pub fn current(&self) -> (r: Option<usize>)
        ensures
            r == item_under_cursor(self@),
            r matches Some(i) ==> i < self.items@.len(),
    {
        let v = self.visible();
        proof {
            let n: usize = self.items.len();
            visible_positions(self@, self@.items.len() as int);
        }
        if self.sel < v.len() {
            Some(v[self.sel])
        } else {
            None
        }
    }
}

// ---- forms -----------------------------------------------------------------------

/// What was typed into a field.
pub enum Answer {
    Text(String),
    /// The text of a number field, white space around it taken off.
    Number(String),
    Checked(bool),
}

pub enum AnswerView {
    Text(Seq<char>),
    Number(Seq<char>),
    Checked(bool),
}

impl View for Answer {
    type V = AnswerView;

    open spec fn view(&self) -> AnswerView {
        match self {
            Answer::Text(t) => AnswerView::Text(t@),
            Answer::Number(t) => AnswerView::Number(t@),
            Answer::Checked(b) => AnswerView::Checked(*b),
        }
    }
}

pub open spec fn answers(v: Seq<(String, Answer)>) -> Seq<(Seq<char>, AnswerView)> {
    v.map_values(|p: (String, Answer)| (p.0@, p.1@))
}

/// A form that is being filled in, field by field.
pub struct Pending {
    pub id: String,
    pub fields: Vec<Field>,
    pub idx: usize,
    pub answers: Vec<(String, Answer)>,
}

pub struct PendingView {
    pub id: Seq<char>,
    pub fields: Seq<pulse::FieldView>,
    pub idx: usize,
    pub answers: Seq<(Seq<char>, AnswerView)>,
}

pub open spec fn pending_view(p: Option<Pending>) -> Option<PendingView> {
    match p {
        Some(f) => Some(
            PendingView {
                id: f.id@,
                fields: pulse::form(f.fields@),
                idx: f.idx,
                answers: answers(f.answers@),
            },
        ),
        None => None,
    }
}

// ---- slash commands ----------------------------------------------------------------

pub struct SlashView {
    pub name: Seq<char>,
    pub description: Seq<char>,
    pub argument_hint: Seq<char>,
}

pub open spec fn slash_view(c: SlashCmd) -> SlashView {
    SlashView { name: c.name@, description: c.description@, argument_hint: c.argument_hint@ }
}

pub open spec fn slash_list(v: Seq<SlashCmd>) -> Seq<SlashView> {
    v.map_values(|c: SlashCmd| slash_view(c))
}

pub broadcast group group_blocks {
    blocks_push,
    blocks_empty,
    tasks_push,
    tasks_empty,
    overlay_items_push,
    overlay_items_empty,
}

} // verus!
