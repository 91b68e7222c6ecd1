//! The screen: what of a session is drawn, and how.

use vstd::prelude::*;
use crate::app::AppView;
use crate::blocks;
use crate::blocks::{BlockView, OverlayView, StreamView, TaskStatus, TaskView, ToolStatus};
use crate::laws::texts;
use crate::markdown;
use crate::pieces;
use crate::screen;
use crate::screen::PageView;
use crate::session;
use crate::style;
use crate::style::{Color, SpanView};
use crate::text;

verus! {

broadcast use vstd::seq::group_seq_axioms;

/// What the user said is drawn behind its sign, with blank lines around it.
pub proof fn questions_are_drawn(s: AppView, p: PageView, t: Seq<char>)
    ensures
        ({
            let r = screen::page_with(s, p, BlockView::User(t));
            let n = r.lines.len();
            &&& n >= 2
            &&& r.lines[n - 1].len() == 0
            &&& r.lines[n - 2].len() == 2
            &&& r.lines[n - 2][0].content == "› "@
            &&& r.lines[n - 2][1].content == t
            &&& r.agent is None
            &&& r.lines.take(p.lines.len() as int) == p.lines
        }),
{
    let r = screen::page_with(s, p, BlockView::User(t));
    assert(r.lines.take(p.lines.len() as int) =~= p.lines);
}

/// What an agent said is drawn under its name, which is drawn once for all that it
/// says in a row; as Markdown where that is on, and as it is where it is off.
pub proof fn answers_are_drawn(s: AppView, p: PageView, agent: Seq<char>, md: Seq<char>, k: int)
    ensures
        ({
            let r = screen::page_with(s, p, BlockView::Assistant { agent, md });
            let body = screen::md_lines(s, md);
            let n = r.lines.len() - body.len();
            &&& r.agent == Some(agent)
            &&& n >= 0
            &&& r.lines.skip(n) == body
            &&& p.agent == Some(agent) ==> r.lines.take(n) == p.lines
            &&& p.agent != Some(agent) ==> n > p.lines.len() && r.lines[n - 1].len() == 1
                && r.lines[n - 1][0].content == "◆ "@ + agent
            &&& r.lines.take(p.lines.len() as int) == p.lines
        }),
        !s.markdown && 0 <= k < pieces::split_char(md, '\n').len() ==> {
            let body = screen::md_lines(s, md);
            &&& body.len() == pieces::split_char(md, '\n').len()
            &&& body[k].len() == 1
            &&& body[k][0].content == pieces::split_char(md, '\n')[k]
        },
        s.markdown ==> screen::md_lines(s, md) == markdown::rendered(
            markdown::parsed_events(md, markdown::RENDER_OPTIONS),
        ),
{
    let r = screen::page_with(s, p, BlockView::Assistant { agent, md });
    let body = screen::md_lines(s, md);
    let n = r.lines.len() - body.len();
    assert(r.lines.skip(n) =~= body);
    assert(r.lines.take(p.lines.len() as int) =~= p.lines);
    if p.agent == Some(agent) {
        assert(r.lines.take(n) =~= p.lines);
    }
}

/// A thought is drawn where thoughts are shown, line by line behind blanks, and
/// not at all where they are not.
pub proof fn thoughts_are_drawn_where_shown(s: AppView, p: PageView, t: Seq<char>, k: int)
    ensures
        !s.show_thinking ==> screen::page_with(s, p, BlockView::Thinking(t)).lines == p.lines,
        s.show_thinking && 0 <= k < pieces::split_char(t, '\n').len() ==> {
            let r = screen::page_with(s, p, BlockView::Thinking(t));
            let line = r.lines[p.lines.len() + 1 + k];
            &&& r.lines.len() == p.lines.len() + 1 + pieces::split_char(t, '\n').len()
            &&& r.lines[p.lines.len() as int][0].content == "✻ thinking"@
            &&& line.len() == 1
            &&& line[0].content == "  "@ + pieces::split_char(t, '\n')[k]
        },
{
    if !s.show_thinking {
        assert(p.lines + Seq::<Seq<SpanView>>::empty() =~= p.lines);
    }
}

/// A tool is drawn by its name and what it was called with, behind a dot that
/// tells how it fares: green where it is done, red where it failed.
pub proof fn tools_are_drawn(s: AppView, p: PageView, name: Seq<char>, d: Seq<char>, st: ToolStatus)
    ensures
        ({
            let r = screen::page_with(s, p, BlockView::Tool { name, detail: d, status: st });
            let l = r.lines.last();
            &&& r.lines.len() == p.lines.len() + 1
            &&& r.lines.drop_last() == p.lines
            &&& l[0].content == "⏺ "@
            &&& l[1].content == name
            &&& d.len() == 0 ==> l.len() == 2
            &&& d.len() > 0 ==> l.len() == 3 && l[2].content == "("@ + d + ")"@
            &&& st == ToolStatus::Done ==> l[0].style.fg == Some(Color::Green)
            &&& st == ToolStatus::Failed ==> l[0].style.fg == Some(Color::Red)
            &&& st == ToolStatus::Running ==> l[0].style.fg == Some(Color::Cyan) || l[0].style.fg
                == Some(Color::DarkGray)
        }),
{
    let r = screen::page_with(s, p, BlockView::Tool { name, detail: d, status: st });
    assert(r.lines.drop_last() =~= p.lines);
}

/// A line is drawn as it is, and a rule with its label between dashes after a
/// blank line.
pub proof fn lines_and_rules_are_drawn(s: AppView, p: PageView, l: Seq<SpanView>, label: Seq<char>)
    requires
        label.len() > 0,
    ensures
        ({
            let r = screen::page_with(s, p, BlockView::Plain(l));
            r.lines == p.lines.push(l) && r.agent == p.agent
        }),
        ({
            let r = screen::page_with(s, p, BlockView::Rule(label));
            let q = r.lines.last();
            &&& r.lines.len() > p.lines.len()
            &&& r.agent is None
            &&& q.len() == 3
            &&& q[0].content == "── "@
            &&& q[1].content == label
        }),
        screen::separator(Seq::empty())[0].content == pieces::repeat("─"@, 48),
{
}

/// Blank lines are not doubled.
pub proof fn blank_lines_are_not_doubled(v: Seq<Seq<SpanView>>)
    ensures
        v.len() > 0 && v.last().len() > 0 ==> screen::blanked(v) == v.push(Seq::empty()),
        v.len() > 0 && v.last().len() == 0 ==> screen::blanked(v) == v,
        v.len() == 0 ==> screen::blanked(v) == v,
{
}

/// The blocks are drawn in their order, and what is being said after them.
pub proof fn blocks_are_drawn_in_order(
    s: AppView,
    b: Seq<BlockView>,
    x: BlockView,
    now: u64,
    tokens: Seq<char>,
    agent: Seq<char>,
    t: Seq<char>,
)
    ensures
        screen::page_of(s, Seq::empty()).lines.len() == 0,
        screen::page_of(s, b.push(x)) == screen::page_with(s, screen::page_of(s, b), x),
        s.stream is None ==> screen::page_streaming(s, screen::page_of(s, b), now, tokens)
            == screen::page_of(s, b).lines,
        s.stream == Some(StreamView { thinking: false, agent, buf: t }) ==> screen::page_streaming(
            s,
            screen::page_of(s, b),
            now,
            tokens,
        ) == screen::page_with(s, screen::page_of(s, b), BlockView::Assistant { agent, md: t }).lines,
        s.stream == Some(StreamView { thinking: true, agent, buf: t }) && s.show_thinking
            ==> screen::page_streaming(s, screen::page_of(s, b), now, tokens) == screen::page_with(
            s,
            screen::page_of(s, b),
            BlockView::Thinking(t),
        ).lines,
{
    assert(b.push(x).drop_last() =~= b);
}

/// Signs that some terminals cannot show are replaced there, one for one, and
/// nowhere else.
pub proof fn signs_are_replaced_where_needed(s: Seq<char>, k: int)
    requires
        0 <= k < s.len(),
    ensures
        screen::safe_text(s, false) == s,
        screen::safe_text(s, true).len() == s.len(),
        (s[k] as u32) < 0x80 ==> screen::safe_text(s, true)[k] == s[k],
        s[k] == '●' || s[k] == '◆' || s[k] == '⏺' ==> screen::safe_text(s, true)[k] == '*',
        s[k] == '✗' ==> screen::safe_text(s, true)[k] == 'x',
        s[k] == '✔' ==> screen::safe_text(s, true)[k] == '+',
        s[k] == '⎿' ==> screen::safe_text(s, true)[k] == 'L',
        s[k] == '›' ==> screen::safe_text(s, true)[k] == '>',
        s[k] == '⚠' ==> screen::safe_text(s, true)[k] == '!',
        s[k] == '○' ==> screen::safe_text(s, true)[k] == 'o',
        s[k] == '·' ==> screen::safe_text(s, true)[k] == '-',
{
}

/// The cursor is drawn in its row and column, two cells from the left edge and
/// within the box; the rows scroll as far as the cursor needs.
pub proof fn the_cursor_is_drawn_in_its_place(x: u16, y: u16, w: u16, h: u16, row: u16, col: u16)
    requires
        x + w < 1000,
        y + h < 1000,
        row < 1000,
        col < 1000,
        h > 0,
        w > 0,
    ensures
        ({
            let p = screen::place_of(x, y, w, h, row, col);
            &&& row < h ==> p.scroll == 0 && p.y == y + row
            &&& row >= h ==> p.scroll == row + 1 - h && p.y == y + h - 1
            &&& 2 + col <= w - 1 ==> p.x == x + 2 + col
            &&& 2 + col > w - 1 ==> p.x == x + w - 1
        }),
{
}

/// The box for the message says what Enter does: it answers what is asked, or
/// sends.
pub proof fn the_box_says_what_enter_does(s: AppView)
    ensures
        s.pending is None && !s.running ==> screen::input_title_text(s) == (
            " message (Enter send · ^J newline) "@,
            Color::Green,
        ),
        s.pending is None && s.running ==> screen::input_title_text(s) == (
            " message (Enter send · ^J newline · ^C cancels) "@,
            Color::Yellow,
        ),
        s.pending matches Some(p) ==> p.idx < p.fields.len() && p.fields.len() == 1
            ==> screen::input_title_text(s) == (
            " answer: "@ + p.fields[0].label + " (Enter to submit) "@,
            Color::Cyan,
        ),
{
}

/// The status says whether the session is connected, which thread it is on, what
/// it does, what is switched on and which model answers.
pub proof fn the_status_says_how_things_are(s: AppView, now: u64)
    requires
        s.title.len() > 0 && s.title.len() <= 48,
    ensures
        ({
            let t = screen::status_text(s, now);
            &&& s.connected ==> text::contains(t, "●"@)
            &&& !s.connected ==> text::contains(t, "○"@)
            &&& text::contains(t, s.title)
            &&& text::contains(t, s.status)
            &&& text::contains(t, crate::api::model_text(s.models, s.current_model))
            &&& s.select_mode ==> text::contains(t, "  ⊙ SELECT"@)
        }),
{
    let dot = if s.connected {
        "●"@
    } else {
        "○"@
    };
    let e = Seq::<char>::empty();
    let elapsed = screen::elapsed_part(s.run_started, now);
    let spin = screen::SPIN@[s.spinner as int % 10]@;
    let doing = if s.running {
        spin + " "@ + s.status + elapsed
    } else {
        s.status
    };
    let model = crate::api::model_text(s.models, s.current_model);
    let sel = if s.select_mode {
        "  ⊙ SELECT"@
    } else {
        Seq::<char>::empty()
    };
    assert(text::contains(doing, s.status)) by {
        if s.running {
            texts::wholes_hold_their_parts(spin + " "@, s.status, elapsed);
        } else {
            texts::texts_hold_themselves(s.status);
        }
    }
    let t0 = " "@;
    let t1 = t0 + dot;
    let t2 = t1 + " "@;
    let t3 = t2 + s.title;
    let t4 = t3 + "  ·  "@;
    let t5 = t4 + doing;
    let t6 = t5 + "  ·  md:"@;
    let t7 = t6 + screen::on_off(s.markdown);
    let t8 = t7 + "  think:"@;
    let t9 = t8 + screen::on_off(s.show_thinking);
    let t10 = t9 + "  ⚙ "@;
    let t11 = t10 + model;
    let t12 = t11 + sel;
    assert(text::contains(t12, dot)) by {
        texts::texts_hold_themselves(dot);
        texts::longer_texts_hold_it(t0, dot, dot);
        texts::longer_texts_hold_it(t1, " "@, dot);
        texts::longer_texts_hold_it(t2, s.title, dot);
        texts::longer_texts_hold_it(t3, "  ·  "@, dot);
        texts::longer_texts_hold_it(t4, doing, dot);
        texts::longer_texts_hold_it(t5, "  ·  md:"@, dot);
        texts::longer_texts_hold_it(t6, screen::on_off(s.markdown), dot);
        texts::longer_texts_hold_it(t7, "  think:"@, dot);
        texts::longer_texts_hold_it(t8, screen::on_off(s.show_thinking), dot);
        texts::longer_texts_hold_it(t9, "  ⚙ "@, dot);
        texts::longer_texts_hold_it(t10, model, dot);
        texts::longer_texts_hold_it(t11, sel, dot);
    }
    assert(text::contains(t12, s.title)) by {
        texts::texts_hold_themselves(s.title);
        texts::longer_texts_hold_it(t2, s.title, s.title);
        texts::longer_texts_hold_it(t3, "  ·  "@, s.title);
        texts::longer_texts_hold_it(t4, doing, s.title);
        texts::longer_texts_hold_it(t5, "  ·  md:"@, s.title);
        texts::longer_texts_hold_it(t6, screen::on_off(s.markdown), s.title);
        texts::longer_texts_hold_it(t7, "  think:"@, s.title);
        texts::longer_texts_hold_it(t8, screen::on_off(s.show_thinking), s.title);
        texts::longer_texts_hold_it(t9, "  ⚙ "@, s.title);
        texts::longer_texts_hold_it(t10, model, s.title);
        texts::longer_texts_hold_it(t11, sel, s.title);
    }
    assert(text::contains(t12, s.status)) by {
        texts::longer_texts_hold_it(t4, doing, s.status);
        texts::longer_texts_hold_it(t5, "  ·  md:"@, s.status);
        texts::longer_texts_hold_it(t6, screen::on_off(s.markdown), s.status);
        texts::longer_texts_hold_it(t7, "  think:"@, s.status);
        texts::longer_texts_hold_it(t8, screen::on_off(s.show_thinking), s.status);
        texts::longer_texts_hold_it(t9, "  ⚙ "@, s.status);
        texts::longer_texts_hold_it(t10, model, s.status);
        texts::longer_texts_hold_it(t11, sel, s.status);
    }
    assert(text::contains(t12, model)) by {
        texts::texts_hold_themselves(model);
        texts::longer_texts_hold_it(t10, model, model);
        texts::longer_texts_hold_it(t11, sel, model);
    }
    assert(text::contains(t12, sel)) by {
        texts::texts_hold_themselves(sel);
        texts::longer_texts_hold_it(t11, sel, sel);
    }
}

/// A task is drawn by the sign of its state and its title.
pub proof fn tasks_are_drawn(t: TaskView, width: nat)
    requires
        t.title.len() + 3 <= width,
    ensures
        ({
            let l = screen::task_line(t, width);
            &&& l.len() == 2
            &&& l[1].content == t.title
            &&& t.status == TaskStatus::Created ==> l[0].content == "○"@ + " "@
            &&& t.status == TaskStatus::Running ==> l[0].content == "⟳"@ + " "@
            &&& t.status == TaskStatus::Completed ==> l[0].content == "✓"@ + " "@
                && l[0].style.fg == Some(Color::Green)
            &&& t.status == TaskStatus::Failed ==> l[0].content == "✗"@ + " "@ && l[0].style.fg
                == Some(Color::Red)
        }),
{
}

/// A list is drawn row by row in its order, those that the filter keeps; the row
/// under the cursor is marked.
pub proof fn lists_are_drawn_row_by_row(o: OverlayView, k: int)
    ensures
        screen::overlay_rows_text(o).len() == blocks::visible_items(o).len(),
        0 <= k < blocks::visible_items(o).len() ==> screen::overlay_rows_text(o)[k]
            == o.items[blocks::visible_items(o)[k] as int].label,
        o.sel < blocks::visible_items(o).len() ==> screen::overlay_marked(o) == Some(o.sel as nat),
        blocks::visible_items(o).len() == 0 ==> screen::overlay_marked(o) is None,
{
}

/// An offered command is drawn with its name, its arguments and what it is for.
pub proof fn commands_are_drawn(c: crate::blocks::SlashView)
    requires
        c.description.len() <= 60,
    ensures
        ({
            let l = screen::slash_line(c);
            &&& l.len() == 3
            &&& l[0].content == "/"@ + c.name
            &&& c.argument_hint.len() > 0 ==> l[1].content == " "@ + c.argument_hint
            &&& c.argument_hint.len() == 0 ==> l[1].content.len() == 0
            &&& l[2].content == "  "@ + c.description
        }),
{
}

/// What is switched on is called on, and what is not is called off.
pub proof fn switches_are_called_on_and_off(b: bool)
    ensures
        b ==> screen::on_off(b) == seq!['o', 'n'],
        !b ==> screen::on_off(b) == seq!['o', 'f', 'f'],
{
    reveal_strlit("on");
    reveal_strlit("off");
    assert("on"@ =~= seq!['o', 'n']);
    assert("off"@ =~= seq!['o', 'f', 'f']);
}

} // verus!
