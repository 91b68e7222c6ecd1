//! Markdown: what is written is shown.

use vstd::prelude::*;
use crate::markdown;
use crate::markdown::{EventView, ListKind, RenderView, Tag};
use crate::pieces;
use crate::digits;
use crate::style;

verus! {

broadcast use vstd::seq::group_seq_axioms;

/// The text of a code block is kept: its lines are what stands between the line
/// feeds of the text, each behind four blanks; the first joins the line that is
/// being written and the last one is left open.
pub proof fn code_lines_are_kept(s: RenderView, t: Seq<char>, k: int)
    requires
        s.in_code_block,
        !s.in_cell,
        0 <= k < pieces::split_char(t, '\n').len(),
    ensures
        ({
            let p = pieces::split_char(t, '\n');
            let r = markdown::render_step(s, EventView::Text(t));
            let all = r.lines.push(r.cur);
            let line = all[s.lines.len() + k];
            &&& all.len() == s.lines.len() + p.len()
            &&& all.take(s.lines.len() as int) == s.lines
            &&& line.len() > 0
            &&& line.last().content == seq![' ', ' ', ' ', ' '] + p[k]
            &&& k == 0 ==> line.drop_last() == s.cur
            &&& k > 0 ==> line.len() == 1
        }),
{
    reveal_strlit("    ");
    assert("    "@ =~= seq![' ', ' ', ' ', ' ']);
    let p = pieces::split_char(t, '\n');
    code_lines(s, p, p.len());
    let r = markdown::code_pieces(s, p, p.len());
    let all = r.lines.push(r.cur);
    let line = all[s.lines.len() + k];
    if k == 0 {
        assert(line.drop_last() =~= s.cur);
    }
    assert(all.take(s.lines.len() as int) =~= s.lines);
}

proof fn code_lines(s: RenderView, p: Seq<Seq<char>>, n: nat)
    requires
        0 < n <= p.len(),
    ensures
        ({
            let r = markdown::code_pieces(s, p, n);
            let all = r.lines.push(r.cur);
            &&& all.len() == s.lines.len() + n
            &&& forall|j: int| 0 <= j < s.lines.len() ==> all[j] == s.lines[j]
            &&& forall|k: int|
                0 <= k < n ==> (#[trigger] all[s.lines.len() + k]) == (if k == 0 {
                    s.cur
                } else {
                    Seq::empty()
                }).push(
                    style::styled("    "@ + p[k], style::colored(style::Color::Green)),
                )
        }),
    decreases n,
{
    if n > 1 {
        code_lines(s, p, (n - 1) as nat);
        let q = markdown::code_pieces(s, p, (n - 1) as nat);
        let r = markdown::code_pieces(s, p, n);
        assert(r.lines =~= q.lines.push(q.cur));
        assert forall|k: int| 0 <= k < n implies (#[trigger] r.lines.push(r.cur)[s.lines.len() + k])
            == (if k == 0 {
            s.cur
        } else {
            Seq::empty()
        }).push(style::styled("    "@ + p[k], style::colored(style::Color::Green))) by {
            if k < n - 1 {
                assert(q.lines.push(q.cur)[s.lines.len() + k] == r.lines[s.lines.len() + k]);
            }
        }
    } else {
        reveal_with_fuel(markdown::code_pieces, 2);
    }
}

/// Text, code and breaks in a line go behind what was written before: the text
/// itself, in the style of the marks that are open; a soft break is a blank and a
/// hard break begins a line.
pub proof fn written_text_goes_behind(s: RenderView, t: Seq<char>)
    requires
        !s.in_cell,
        !s.in_code_block,
    ensures
        ({
            let r = markdown::render_step(s, EventView::Text(t));
            &&& r.lines == s.lines
            &&& r.cur.len() == s.cur.len() + 1
            &&& r.cur.drop_last() == s.cur
            &&& r.cur.last().content == t
            &&& r.cur.last().style.bold == (s.bold > 0)
            &&& r.cur.last().style.italic == (s.italic > 0)
            &&& r.cur.last().style.crossed_out == (s.strike > 0)
        }),
        ({
            let r = markdown::render_step(s, EventView::Code(t));
            &&& r.lines == s.lines
            &&& r.cur.drop_last() == s.cur
            &&& r.cur.len() == s.cur.len() + 1
            &&& r.cur.last().content == t
            &&& r.cur.last().style.fg == Some(style::Color::Yellow)
        }),
        ({
            let r = markdown::render_step(s, EventView::SoftBreak);
            &&& r.lines == s.lines
            &&& r.cur.drop_last() == s.cur
            &&& r.cur.len() == s.cur.len() + 1
            &&& r.cur.last().content == seq![' ']
        }),
        ({
            let r = markdown::render_step(s, EventView::HardBreak);
            &&& r.lines == s.lines.push(s.cur)
            &&& r.cur.len() == 0
        }),
{
    reveal_strlit(" ");
    assert(" "@ =~= seq![' ']);
    assert(s.cur.push(style::styled(t, markdown::inline_style(s))).drop_last() =~= s.cur);
    assert(s.cur.push(style::styled(t, style::colored(style::Color::Yellow))).drop_last() =~= s.cur);
    assert(s.cur.push(style::styled(" "@, style::plain())).drop_last() =~= s.cur);
}

/// What is written in a cell of a table is kept for the cell, and a finished cell
/// is that text without its white ends, behind the cells before it.
pub proof fn cells_keep_their_text(s: RenderView, t: Seq<char>)
    requires
        s.in_cell,
    ensures
        markdown::render_step(s, EventView::Text(t)).cell_buf == s.cell_buf + t,
        markdown::render_step(s, EventView::Code(t)).cell_buf == s.cell_buf + t,
        markdown::render_step(s, EventView::SoftBreak).cell_buf == s.cell_buf + seq![' '],
        markdown::render_step(s, EventView::HardBreak).cell_buf == s.cell_buf + seq![' '],
        markdown::render_step(s, EventView::Text(t)).lines == s.lines,
        markdown::render_step(s, EventView::Text(t)).cur == s.cur,
        ({
            let r = markdown::render_step(s, EventView::End(Tag::TableCell));
            &&& !r.in_cell
            &&& r.row.len() == s.row.len() + 1
            &&& r.row.last() == pieces::trim(s.cell_buf)
            &&& r.row.drop_last() == s.row
        }),
        ({
            let r = markdown::render_step(s, EventView::Start(Tag::TableCell));
            &&& r.in_cell
            &&& r.cell_buf.len() == 0
        }),
{
    assert(s.cell_buf.push(' ') =~= s.cell_buf + seq![' ']);
    assert(s.row.push(pieces::trim(s.cell_buf)).drop_last() =~= s.row);
}

/// A finished row goes behind the rows of the table, the head of a table is its
/// first row, and a finished table is shown and forgotten.
pub proof fn rows_make_a_table(s: RenderView)
    ensures
        ({
            let r = markdown::render_step(s, EventView::End(Tag::TableRow));
            &&& r.table_rows.len() == s.table_rows.len() + 1
            &&& r.table_rows.last() == s.row
            &&& r.table_rows.drop_last() == s.table_rows
            &&& r.row.len() == 0
            &&& r.header_rows == s.header_rows
        }),
        ({
            let r = markdown::render_step(s, EventView::End(Tag::TableHead));
            &&& r.table_rows.last() == s.row
            &&& r.table_rows.len() == s.table_rows.len() + 1
            &&& r.row.len() == 0
            &&& r.header_rows == 1
        }),
        ({
            let r = markdown::render_step(s, EventView::Start(Tag::Table));
            &&& r.table_rows.len() == 0
            &&& r.header_rows == 0
        }),
        markdown::render_step(s, EventView::Start(Tag::TableRow)).row.len() == 0,
        markdown::render_step(s, EventView::End(Tag::Table)).table_rows.len() == 0,
        markdown::render_step(s, EventView::End(Tag::Table)).lines.len() == s.lines.len()
            + s.table_rows.len() + (if s.header_rows > 0 && s.header_rows <= s.table_rows.len() {
            1int
        } else {
            0
        }) + 1,
{
    assert(s.table_rows.push(s.row).drop_last() =~= s.table_rows);
    table_height(s.table_rows, s.header_rows, s.table_rows.len());
}

proof fn table_height(rows: Seq<Seq<Seq<char>>>, header_rows: nat, n: nat)
    ensures
        markdown::table_lines(rows, header_rows, n).len() == n + (if 0 < header_rows <= n {
            1int
        } else {
            0
        }),
    decreases n,
{
    if n > 0 {
        table_height(rows, header_rows, (n - 1) as nat);
    }
}

/// A shown row of a table has its cells in order, each filled up with blanks to
/// the width of its column, which is that of its widest cell.
pub proof fn shown_rows_hold_their_cells(
    rows: Seq<Seq<Seq<char>>>,
    row: Seq<Seq<char>>,
    look: style::Style,
    n: nat,
    i: int,
)
    requires
        0 <= i < n,
    ensures
        ({
            let spans = markdown::row_spans(rows, row, look, n, n);
            let c = if i < row.len() {
                row[i]
            } else {
                Seq::empty()
            };
            let w = markdown::column_width(rows, i);
            let shown = spans[2 * i + 1].content;
            &&& spans.len() == 2 * n
            &&& shown.len() == if c.len() >= w {
                c.len()
            } else {
                w
            }
            &&& shown.take(c.len() as int) == c
            &&& forall|k: int| c.len() <= k < shown.len() ==> shown[k] == ' '
        }),
{
    row_cells(rows, row, look, n, n, i);
}

proof fn row_cells(
    rows: Seq<Seq<Seq<char>>>,
    row: Seq<Seq<char>>,
    look: style::Style,
    cols: nat,
    n: nat,
    i: int,
)
    requires
        0 <= n <= cols,
        cols > 0,
    ensures
        ({
            let spans = markdown::row_spans(rows, row, look, cols, n);
            &&& spans.len() == (if n == 0 {
                1int
            } else if n < cols {
                2 * n as int + 1
            } else {
                2 * n as int
            })
            &&& 0 <= i < n ==> {
                let c = if i < row.len() {
                    row[i]
                } else {
                    Seq::empty()
                };
                let w = markdown::column_width(rows, i);
                let shown = spans[2 * i + 1].content;
                &&& shown.len() == if c.len() >= w {
                    c.len()
                } else {
                    w
                }
                &&& shown.take(c.len() as int) == c
                &&& forall|k: int| c.len() <= k < shown.len() ==> shown[k] == ' '
            }
        }),
    decreases n,
{
    if n > 0 {
        row_cells(rows, row, look, cols, (n - 1) as nat, i);
        if i == n - 1 {
            let c = if i < row.len() {
                row[i]
            } else {
                Seq::empty()
            };
            let w = markdown::column_width(rows, i);
            let shown = digits::pad_right(c, ' ', w);
            assert(shown.take(c.len() as int) =~= c);
        }
    }
}

/// The width of a column is that of a widest cell: no cell is wider.
pub proof fn columns_are_wide_enough(rows: Seq<Seq<Seq<char>>>, r: int, i: int)
    requires
        0 <= r < rows.len(),
        0 <= i < rows[r].len(),
    ensures
        rows[r][i].len() <= markdown::column_width(rows, i),
        i < markdown::column_count(rows),
        markdown::column_width(rows, i) > 0 ==> exists|q: int|
            0 <= q < rows.len() && markdown::cell(#[trigger] rows[q], i).len()
                == markdown::column_width(rows, i),
    decreases rows.len(),
{
    widths(rows, i);
    counts(rows);
    assert(markdown::cell(rows[r], i) == rows[r][i]);
}

proof fn counts(rows: Seq<Seq<Seq<char>>>)
    ensures
        forall|q: int|
            0 <= q < rows.len() ==> (#[trigger] rows[q]).len() <= markdown::column_count(rows),
    decreases rows.len(),
{
    if rows.len() > 0 {
        counts(rows.drop_last());
        assert forall|q: int| 0 <= q < rows.len() implies (#[trigger] rows[q]).len()
            <= markdown::column_count(rows) by {
            if q < rows.len() - 1 {
                assert(rows.drop_last()[q] == rows[q]);
            }
        }
    }
}

proof fn widths(rows: Seq<Seq<Seq<char>>>, i: int)
    ensures
        forall|q: int|
            0 <= q < rows.len() ==> markdown::cell(#[trigger] rows[q], i).len()
                <= markdown::column_width(rows, i),
        markdown::column_width(rows, i) > 0 ==> exists|q: int|
            0 <= q < rows.len() && markdown::cell(#[trigger] rows[q], i).len()
                == markdown::column_width(rows, i),
    decreases rows.len(),
{
    if rows.len() > 0 {
        let w = rows.drop_last();
        widths(w, i);
        assert forall|q: int| 0 <= q < rows.len() implies markdown::cell(
            #[trigger] rows[q],
            i,
        ).len() <= markdown::column_width(rows, i) by {
            if q < w.len() {
                assert(w[q] == rows[q]);
            }
        }
        if markdown::column_width(rows, i) > 0 {
            if markdown::cell(rows.last(), i).len() == markdown::column_width(rows, i) {
                assert(rows[rows.len() - 1] == rows.last());
            } else {
                let q = choose|q: int|
                    0 <= q < w.len() && markdown::cell(#[trigger] w[q], i).len()
                        == markdown::column_width(w, i);
                assert(rows[q] == w[q]);
            }
        }
    }
}

/// A heading stands on a line of its own, after a blank one where something came
/// before it, and holds what was written in it, in bold.
pub proof fn headings_stand_alone(s: RenderView, level: u8, k: int)
    ensures
        ({
            let r = markdown::render_step(s, EventView::Start(Tag::Heading(level)));
            &&& r.heading == Some(level)
            &&& r.cur.len() == 0
            &&& s.cur.len() > 0 ==> r.lines == s.lines.push(s.cur).push(Seq::empty())
            &&& s.cur.len() == 0 && s.lines.len() > 0 ==> r.lines == s.lines.push(Seq::empty())
            &&& s.cur.len() == 0 && s.lines.len() == 0 ==> r.lines.len() == 0
        }),
        ({
            let r = markdown::render_step(s, EventView::End(Tag::Heading(level)));
            &&& r.heading is None
            &&& r.cur.len() == 0
            &&& r.lines.len() == s.lines.len() + 1
            &&& r.lines.drop_last() == s.lines
            &&& r.lines.last().len() == s.cur.len()
            &&& 0 <= k < s.cur.len() ==> r.lines.last()[k].content == s.cur[k].content
                && r.lines.last()[k].style.bold
        }),
{
    assert(s.lines.push(markdown::restyled(s.cur, markdown::heading_style(s.heading))).drop_last()
        =~= s.lines);
}

/// A list item begins a line with its marker: a dot, or its number, which grows
/// by one with each item.
pub proof fn items_begin_with_their_marker(s: RenderView, n: u64)
    requires
        s.lists.len() > 0,
        n < u64::MAX,
    ensures
        s.lists.last() == ListKind::Bullet ==> {
            let r = markdown::render_step(s, EventView::Start(Tag::Item));
            &&& r.cur.len() > 0
            &&& r.cur.last().content == seq!['•', ' ']
            &&& r.lists == s.lists
        },
        s.lists.last() == ListKind::Ordered(n) ==> {
            let r = markdown::render_step(s, EventView::Start(Tag::Item));
            &&& r.cur.len() > 0
            &&& r.cur.last().content == digits::dec(n as nat) + seq!['.', ' ']
            &&& r.lists.len() == s.lists.len()
            &&& r.lists.last() == ListKind::Ordered((n + 1) as u64)
        },
        s.cur.len() > 0 ==> markdown::render_step(s, EventView::Start(Tag::Item)).lines
            == s.lines.push(s.cur),
        s.cur.len() == 0 ==> markdown::render_step(s, EventView::Start(Tag::Item)).lines == s.lines,
        markdown::render_step(s, EventView::End(Tag::Item)).lines == s.lines.push(s.cur),
        markdown::render_step(s, EventView::StartList(Some(n))).lists == s.lists.push(
            ListKind::Ordered(n),
        ),
        markdown::render_step(s, EventView::StartList(None)).lists == s.lists.push(ListKind::Bullet),
        markdown::render_step(s, EventView::End(Tag::List)).lists == s.lists.drop_last(),
{
    reveal_strlit("• ");
    reveal_strlit(". ");
    assert("• "@ =~= seq!['•', ' ']);
    assert(". "@ =~= seq!['.', ' ']);
}

/// Marks of a kind open and close: what one event opens, its end closes.
pub proof fn marks_close_what_they_open(s: RenderView)
    requires
        s.bold < u32::MAX,
        s.italic < u32::MAX,
        s.strike < u32::MAX,
        s.quote_depth < u32::MAX,
    ensures
        ({
            let r = markdown::render_step(s, EventView::Start(Tag::Strong));
            &&& r.bold == s.bold + 1 && r.italic == s.italic && r.strike == s.strike
            &&& markdown::render_step(r, EventView::End(Tag::Strong)) == s
        }),
        ({
            let r = markdown::render_step(s, EventView::Start(Tag::Emphasis));
            &&& r.italic == s.italic + 1 && r.bold == s.bold && r.strike == s.strike
            &&& markdown::render_step(r, EventView::End(Tag::Emphasis)) == s
        }),
        ({
            let r = markdown::render_step(s, EventView::Start(Tag::Strikethrough));
            &&& r.strike == s.strike + 1 && r.bold == s.bold && r.italic == s.italic
            &&& markdown::render_step(r, EventView::End(Tag::Strikethrough)) == s
        }),
        ({
            let r = markdown::render_step(s, EventView::Start(Tag::BlockQuote));
            &&& r.quote_depth == s.quote_depth + 1
            &&& markdown::render_step(r, EventView::End(Tag::BlockQuote)).quote_depth
                == s.quote_depth
        }),
        markdown::render_step(s, EventView::Start(Tag::CodeBlock)).in_code_block,
        !markdown::render_step(s, EventView::End(Tag::CodeBlock)).in_code_block,
{
}

/// A paragraph begins a line behind the bars of the quotes that it stands in, and
/// its end leaves a blank line outside lists.
pub proof fn paragraphs_begin_lines(s: RenderView, k: int)
    ensures
        ({
            let r = markdown::render_step(s, EventView::Start(Tag::Paragraph));
            &&& s.cur.len() > 0 ==> r.lines == s.lines.push(s.cur)
            &&& s.cur.len() == 0 ==> r.lines == s.lines
            &&& r.cur.len() == s.quote_depth + (if s.lists.len() > 1 {
                1int
            } else {
                0
            })
            &&& 0 <= k < s.quote_depth ==> r.cur[k].content == seq!['▏', ' ']
        }),
        ({
            let r = markdown::render_step(s, EventView::End(Tag::Paragraph));
            &&& r.cur.len() == 0
            &&& s.lists.len() == 0 ==> r.lines == s.lines.push(s.cur).push(Seq::empty())
            &&& s.lists.len() > 0 ==> r.lines == s.lines.push(s.cur)
        }),
{
    reveal_strlit("▏ ");
    assert("▏ "@ =~= seq!['▏', ' ']);
    bars(s.quote_depth as nat);
}

proof fn bars(n: nat)
    ensures
        markdown::gutters(n).len() == n,
        forall|k: int| 0 <= k < n ==> (#[trigger] markdown::gutters(n)[k]).content == "▏ "@,
    decreases n,
{
    if n > 0 {
        bars((n - 1) as nat);
    }
}

/// A rule is a line of forty dashes.
pub proof fn rules_are_lines(s: RenderView)
    ensures
        ({
            let r = markdown::render_step(s, EventView::Rule);
            let line = r.lines.last();
            &&& r.lines.len() == s.lines.len() + (if s.cur.len() > 0 {
                2int
            } else {
                1
            })
            &&& line.len() == 1
            &&& line[0].content == pieces::repeat("─"@, 40)
        }),
{
}

/// Nothing that is not blank is lost on the way to the screen: each line that was
/// written and says something is shown.
pub proof fn written_lines_are_shown(v: Seq<Seq<style::SpanView>>, k: int)
    requires
        0 <= k < v.len(),
        !markdown::is_blank_line(v[k]),
    ensures
        markdown::compact(v).contains(v[k]),
{
    collapsing_keeps(v, k);
    let c = markdown::collapsed(v).0;
    let m = choose|m: int| 0 <= m < c.len() && c[m] == v[k];
    cutting_keeps(c, m);
}

proof fn collapsing_keeps(v: Seq<Seq<style::SpanView>>, k: int)
    requires
        0 <= k < v.len(),
        !markdown::is_blank_line(v[k]),
    ensures
        markdown::collapsed(v).0.contains(v[k]),
    decreases v.len(),
{
    let w = v.drop_last();
    let before = markdown::collapsed(w).0;
    let all = markdown::collapsed(v).0;
    if k < w.len() {
        assert(w[k] == v[k]);
        collapsing_keeps(w, k);
        let m = choose|m: int| 0 <= m < before.len() && before[m] == v[k];
        assert(all[m] == v[k]);
    } else {
        assert(all[before.len() as int] == v[k]);
    }
}

proof fn cutting_keeps(v: Seq<Seq<style::SpanView>>, k: int)
    requires
        0 <= k < v.len(),
        !markdown::is_blank_line(v[k]),
    ensures
        markdown::without_trailing_blanks(v).contains(v[k]),
    decreases v.len(),
{
    if markdown::is_blank_line(v.last()) {
        assert(k < v.len() - 1);
        assert(v.drop_last()[k] == v[k]);
        cutting_keeps(v.drop_last(), k);
    }
}

/// A link that is written out is offered under its label, or under its address
/// where it has none.
pub proof fn links_are_offered(s: markdown::Links, u: Seq<char>, t: Seq<char>)
    requires
        s.url is None,
        !pieces::is_blank(t),
    ensures
        ({
            let a = markdown::link_step(s, EventView::StartLink(u));
            let b = markdown::link_step(a, EventView::Text(t));
            let named = markdown::link_step(b, EventView::End(Tag::Link));
            let bare = markdown::link_step(a, EventView::End(Tag::Link));
            &&& named.found == s.found.push((pieces::trim(t), u))
            &&& named.url is None
            &&& bare.found == s.found.push((u, u))
        }),
{
    assert(Seq::<char>::empty() + t =~= t);
    pieces::blank_is_all_white(Seq::empty());
}

/// The rows of a table's head stand out from the others.
pub proof fn heads_of_tables_stand_out(i: int, n: nat)
    ensures
        i < n ==> markdown::row_look(i, n).bold,
        i >= n ==> !markdown::row_look(i, n).bold,
{
}

/// What stands on the current line is kept before something else begins; an empty
/// line is not made of nothing.
pub proof fn current_lines_are_kept(s: RenderView)
    ensures
        s.cur.len() > 0 ==> markdown::flushed_if_any(s).lines == s.lines.push(s.cur)
            && markdown::flushed_if_any(s).cur.len() == 0,
        s.cur.len() == 0 ==> markdown::flushed_if_any(s) == s,
{
}

/// The items of a numbered list count up, and what is opened once more is closed
/// once more.
pub proof fn marks_are_counted(n: u64, d: u32)
    ensures
        n < u64::MAX ==> markdown::next_item(n) == n + 1,
        d < u32::MAX ==> markdown::plus_one(d) == d + 1 && markdown::minus_one(markdown::plus_one(d))
            == d,
        markdown::minus_one(0) == 0,
{
}

} // verus!
