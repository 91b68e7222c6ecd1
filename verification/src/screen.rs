//! What a chat session shows: its lines, titles and measures.

use vstd::prelude::*;
use crate::api;
use crate::app;
use crate::app::{App, Block, OverlayKind, ToolStatus};
use crate::blocks;
use crate::digits;
use crate::editor;
use crate::markdown;
use crate::pieces;
use crate::session;
use crate::style;
use crate::style::{Color, Line, Span, Style};
use crate::text;

verus! {

broadcast use {
    vstd::seq::group_seq_axioms,
    vstd::string::group_string_axioms,
    blocks::group_blocks,
    style::group_styled,
    text::views_push,
    text::views_empty,
};

// ---- glyphs ------------------------------------------------------------------------

/// The plain sign for a glyph that some consoles draw two cells wide.
pub open spec fn plain_sign(c: char) -> Option<char> {
    if c == '●' || c == '◆' || c == '⏺' || c == '◇' || c == '✻' || c == '◈' || c == '⛁' || c == '⊞'
        || c == '◐' || c == '★' {
        Some('*')
    } else if c == '○' {
        Some('o')
    } else if c == '⎿' {
        Some('L')
    } else if c == '▷' || c == '➤' || c == '›' || c == '↪' {
        Some('>')
    } else if c == '✔' || c == '➕' {
        Some('+')
    } else if c == '✗' {
        Some('x')
    } else if c == '⚠' {
        Some('!')
    } else if c == '⬆' {
        Some('^')
    } else if c == '⟳' {
        Some('~')
    } else if c == '·' {
        Some('-')
    } else {
        None
    }
}

/// The plain sign for a glyph that some consoles draw two cells wide.
pub fn win_glyph(c: char) -> (r: Option<char>)
    ensures
        r == plain_sign(c),
{
    if c == '●' || c == '◆' || c == '⏺' || c == '◇' || c == '✻' || c == '◈' || c == '⛁' || c == '⊞'
        || c == '◐' || c == '★' {
        Some('*')
    } else if c == '○' {
        Some('o')
    } else if c == '⎿' {
        Some('L')
    } else if c == '▷' || c == '➤' || c == '›' || c == '↪' {
        Some('>')
    } else if c == '✔' || c == '➕' {
        Some('+')
    } else if c == '✗' {
        Some('x')
    } else if c == '⚠' {
        Some('!')
    } else if c == '⬆' {
        Some('^')
    } else if c == '⟳' {
        Some('~')
    } else if c == '·' {
        Some('-')
    } else {
        None
    }
}

/// A text with plain signs, character for character; `windows` says that the
/// console needs them.
pub open spec fn safe_text(s: Seq<char>, windows: bool) -> Seq<char> {
    if windows {
        s.map_values(
            |c: char|
                match plain_sign(c) {
                    Some(p) => p,
                    None => c,
                },
        )
    } else {
        s
    }
}

/// A text with plain signs where the console needs them.
pub fn win_safe(s: &str, windows: bool) -> (r: String)
    ensures
        r@ == safe_text(s@, windows),
{
    if !windows {
        return s.to_owned();
    }
    let v = text::chars_of(s);
    let ghost want = safe_text(s@, true);
    let mut out = String::new();
    assert(want.take(0) =~= Seq::empty());
    let mut i: usize = 0;
    while i < v.len()
        invariant
            i <= v@.len(),
            v@ == s@,
            want == safe_text(s@, true),
            out@ == want.take(i as int),
        decreases v@.len() - i,
    {
        match win_glyph(v[i]) {
            Some(p) => out.push(p),
            None => out.push(v[i]),
        }
        assert(want.take(i + 1) =~= want.take(i as int).push(want[i as int]));
        i += 1;
    }
    assert(want.take(want.len() as int) =~= want);
    out
}

/// A line with plain signs where the console needs them.
pub open spec fn safe_line(l: Seq<style::SpanView>, windows: bool) -> Seq<style::SpanView> {
    l.map_values(
        |s: style::SpanView| style::SpanView { content: safe_text(s.content, windows), ..s },
    )
}

/// A line with plain signs where the console needs them.
pub fn win_safe_line(l: &Line, windows: bool) -> (r: Line)
    ensures
        r@ == safe_line(l@, windows),
{
    let ghost want = safe_line(l@, windows);
    let mut out: Vec<Span> = Vec::new();
    assert(want.take(0) =~= Seq::empty());
    let mut i: usize = 0;
    while i < l.spans.len()
        invariant
            i <= l.spans@.len(),
            want == safe_line(l@, windows),
            style::spans(out@) == want.take(i as int),
        decreases l.spans@.len() - i,
    {
        assert(l@[i as int] == l.spans@[i as int]@);
        let t = win_safe(&l.spans[i].content, windows);
        out.push(Span::styled(t, l.spans[i].style));
        assert(want.take(i + 1) =~= want.take(i as int).push(want[i as int]));
        i += 1;
    }
    assert(want.take(want.len() as int) =~= want);
    Line { spans: out }
}

// ---- the lines of the transcript -------------------------------------------------------

/// The lines with a blank one at the end, unless there is one already.
pub open spec fn blanked(v: Seq<Seq<style::SpanView>>) -> Seq<Seq<style::SpanView>> {
    if v.len() == 0 || v.last().len() == 0 {
        v
    } else {
        v.push(Seq::empty())
    }
}

/// The line that names the agent who speaks.
pub open spec fn header_line(agent: Seq<char>) -> Seq<style::SpanView> {
    seq![style::styled("◆ "@ + agent, style::bold(Color::Green))]
}

/// A separator: a plain one, or one with its label in it.
pub open spec fn separator(label: Seq<char>) -> Seq<style::SpanView> {
    let dim = style::colored(Color::DarkGray);
    if label.len() == 0 {
        seq![style::styled(pieces::repeat("─"@, 48), dim)]
    } else {
        let n = text::byte_len(label);
        seq![
            style::styled("── "@, dim),
            style::styled(label, style::bold(Color::DarkGray)),
            style::styled(
                " "@ + pieces::repeat(
                    "─"@,
                    if n <= 40 {
                        (40 - n) as nat
                    } else {
                        0
                    },
                ),
                dim,
            ),
        ]
    }
}

/// Markdown as lines: rendered, or line by line as it is.
pub open spec fn md_lines(s: app::AppView, md: Seq<char>) -> Seq<Seq<style::SpanView>> {
    if s.markdown {
        markdown::rendered(markdown::parsed_events(md, markdown::RENDER_OPTIONS))
    } else {
        pieces::split_char(md, '\n').map_values(
            |l: Seq<char>| seq![style::styled(l, style::colored(Color::White))],
        )
    }
}

/// Grey italics, bold or not.
pub open spec fn muted(bold: bool) -> Style {
    Style { fg: Some(Color::DarkGray), bold, italic: true, dim: false, crossed_out: false }
}

/// A thought as lines; none where thoughts are not shown.
pub open spec fn thought_lines(s: app::AppView, t: Seq<char>) -> Seq<Seq<style::SpanView>> {
    if s.show_thinking {
        seq![seq![style::styled("✻ thinking"@, style::bold(Color::Magenta))]]
            + pieces::split_char(t, '\n').map_values(
            |l: Seq<char>| seq![style::styled("  "@ + l, muted(true))],
        )
    } else {
        Seq::empty()
    }
}

/// A colour that blinks with the working sign.
pub open spec fn blinking(spinner: usize, c: Color) -> Style {
    style::bold(
        if (spinner / 3) % 2 == 0 {
            c
        } else {
            Color::DarkGray
        },
    )
}

/// A tool call as one line.
pub open spec fn tool_line(
    s: app::AppView,
    name: Seq<char>,
    detail: Seq<char>,
    status: ToolStatus,
) -> Seq<style::SpanView> {
    let dot = match status {
        ToolStatus::Running => blinking(s.spinner, Color::Cyan),
        ToolStatus::Done => style::bold(Color::Green),
        ToolStatus::Failed => style::bold(Color::Red),
    };
    let call = seq![
        style::styled("⏺ "@, dot),
        style::styled(name, style::bold(Color::Cyan)),
    ];
    if detail.len() == 0 {
        call
    } else {
        call.push(style::styled("("@ + detail + ")"@, style::colored(Color::DarkGray)))
    }
}

/// Lines, and the agent whose header was shown last.
pub struct PageView {
    pub lines: Seq<Seq<style::SpanView>>,
    pub agent: Option<Seq<char>>,
}

/// The page with the header of an agent, where another one spoke before.
pub open spec fn headed(p: PageView, agent: Seq<char>) -> PageView {
    if p.agent == Some(agent) {
        p
    } else {
        PageView { lines: blanked(p.lines).push(header_line(agent)), agent: Some(agent) }
    }
}

/// The page with one more entry.
pub open spec fn page_with(s: app::AppView, p: PageView, b: blocks::BlockView) -> PageView {
    match b {
        blocks::BlockView::User(t) => PageView {
            lines: blanked(
                blanked(p.lines).push(
                    seq![
                        style::styled("› "@, style::bold(Color::Magenta)),
                        style::styled(t, style::bold(Color::White)),
                    ],
                ),
            ),
            agent: None,
        },
        blocks::BlockView::Assistant { agent, md } => {
            let h = headed(p, agent);
            PageView { lines: h.lines + md_lines(s, md), ..h }
        },
        blocks::BlockView::Thinking(t) => PageView { lines: p.lines + thought_lines(s, t), ..p },
        blocks::BlockView::Plain(l) => PageView { lines: p.lines.push(l), ..p },
        blocks::BlockView::Tool { name, detail, status } => PageView {
            lines: p.lines.push(tool_line(s, name, detail, status)),
            ..p
        },
        blocks::BlockView::Rule(label) => PageView {
            lines: blanked(p.lines).push(separator(label)),
            agent: None,
        },
    }
}

/// The page of the entries.
pub open spec fn page_of(s: app::AppView, b: Seq<blocks::BlockView>) -> PageView
    decreases b.len(),
{
    if b.len() == 0 {
        PageView { lines: Seq::empty(), agent: None }
    } else {
        page_with(s, page_of(s, b.drop_last()), b.last())
    }
}

/// The line for a thought that is being received and not shown.
pub open spec fn hidden_thought(s: app::AppView, now: u64, tokens: Seq<char>) -> Seq<
    style::SpanView,
> {
    seq![
        style::styled("✻ "@, blinking(s.spinner, Color::Magenta)),
        style::styled(
            "thinking…"@ + elapsed_part(s.run_started, now) + (if s.run_tokens > 0 {
                "  "@ + tokens
            } else {
                Seq::empty()
            }),
            muted(false),
        ),
    ]
}

/// The time since a run began, set off by two spaces.
pub open spec fn elapsed_part(started: Option<u64>, now: u64) -> Seq<char> {
    match started {
        Some(b) => "  "@ + app::elapsed_text((app::span(b, now) / app::SECOND) as nat),
        None => Seq::empty(),
    }
}

/// The page with what is being received.
pub open spec fn page_streaming(s: app::AppView, p: PageView, now: u64, tokens: Seq<char>) -> Seq<
    Seq<style::SpanView>,
> {
    match s.stream {
        None => p.lines,
        Some(st) => if st.thinking {
            if s.show_thinking {
                p.lines + thought_lines(s, st.buf)
            } else {
                p.lines.push(hidden_thought(s, now, tokens))
            }
        } else {
            headed(p, st.agent).lines + md_lines(s, st.buf)
        },
    }
}

/// All lines of a transcript.
pub open spec fn transcript_lines(
    s: app::AppView,
    now: u64,
    tokens: Seq<char>,
    windows: bool,
) -> Seq<Seq<style::SpanView>> {
    page_streaming(s, page_of(s, s.blocks), now, tokens).map_values(
        |l: Seq<style::SpanView>| safe_line(l, windows),
    )
}

fn push_blank(out: &mut Vec<Line>)
    ensures
        style::lines(final(out)@) == blanked(style::lines(old(out)@)),
{
    let n: usize = out.len();
    if n == 0 {
        return;
    }
    assert(style::lines(out@).last() == out@[n - 1]@);
    if out[n - 1].spans.len() == 0 {
        return;
    }
    out.push(Line::blank());
}

fn separator_line(label: &str) -> (r: Line)
    ensures
        r@ == separator(label@),
{
    let dim = Style::colored(Color::DarkGray);
    if text::char_count(label) == 0 {
        return Line::of(pieces::str_repeat("─", 48), dim);
    }
    let n = text::str_byte_len(label);
    let k: usize = if n <= 40 {
        40 - n
    } else {
        0
    };
    let mut tail = " ".to_owned();
    let bar = pieces::str_repeat("─", k);
    tail.push_str(&bar);
    let mut spans: Vec<Span> = Vec::new();
    spans.push(Span::styled("── ".to_owned(), dim));
    spans.push(Span::styled(label.to_owned(), Style::bold(Color::DarkGray)));
    spans.push(Span::styled(tail, dim));
    let l = Line { spans };
    assert(l@ =~= separator(label@));
    l
}

fn append_lines(out: &mut Vec<Line>, more: Vec<Line>)
    ensures
        style::lines(final(out)@) == style::lines(old(out)@) + style::lines(more@),
{
    let mut rest = more;
    let ghost a = out@;
    let ghost b = rest@;
    out.append(&mut rest);
    assert(style::lines(a + b) =~= style::lines(a) + style::lines(b));
}

/// Lines of one span each, with a prefix before every text.
fn span_lines(texts: &Vec<String>, prefix: &str, look: Style) -> (r: Vec<Line>)
    ensures
        style::lines(r@) == text::views(texts@).map_values(
            |l: Seq<char>| seq![style::styled(prefix@ + l, look)],
        ),
{
    let ghost want = text::views(texts@).map_values(
        |l: Seq<char>| seq![style::styled(prefix@ + l, look)],
    );
    let mut out: Vec<Line> = Vec::new();
    assert(want.take(0) =~= Seq::empty());
    let mut i: usize = 0;
    while i < texts.len()
        invariant
            i <= texts@.len(),
            want == text::views(texts@).map_values(
                |l: Seq<char>| seq![style::styled(prefix@ + l, look)],
            ),
            style::lines(out@) == want.take(i as int),
        decreases texts@.len() - i,
    {
        let mut s = prefix.to_owned();
        s.push_str(&texts[i]);
        assert(text::views(texts@)[i as int] == texts@[i as int]@);
        out.push(Line::of(s, look));
        assert(want.take(i + 1) =~= want.take(i as int).push(want[i as int]));
        i += 1;
    }
    assert(want.take(want.len() as int) =~= want);
    out
}

fn blink(spinner: usize, c: Color) -> (r: Style)
    ensures
        r == blinking(spinner, c),
{
    Style::bold(
        if (spinner / 3) % 2 == 0 {
            c
        } else {
            Color::DarkGray
        },
    )
}

fn muted_style(bold: bool) -> (r: Style)
    ensures
        r == muted(bold),
{
    Style { fg: Some(Color::DarkGray), bold, italic: true, dim: false, crossed_out: false }
}

fn elapsed_string(started: Option<u64>, now: u64) -> (r: String)
    ensures
        r@ == elapsed_part(started, now),
{
    match started {
        Some(b) => {
            let mut s = "  ".to_owned();
            let d: u64 = if now >= b {
                now - b
            } else {
                0
            };
            let t = app::fmt_elapsed(d / app::SECOND);
            s.push_str(&t);
            s
        },
        None => String::new(),
    }
}

/// Lines, and the agent whose header was shown last.
pub struct Page {
    pub lines: Vec<Line>,
    pub agent: Option<String>,
}

impl View for Page {
    type V = PageView;

    open spec fn view(&self) -> PageView {
        PageView { lines: style::lines(self.lines@), agent: text::opt_view(self.agent) }
    }
}

impl Page {
    fn head(&mut self, agent: &str)
        ensures
            final(self)@ == headed(old(self)@, agent@),
    {
        if text::opt_is(&self.agent, agent) {
            return;
        }
        push_blank(&mut self.lines);
        let mut t = "◆ ".to_owned();
        t.push_str(agent);
        self.lines.push(Line::of(t, Style::bold(Color::Green)));
        self.agent = Some(agent.to_owned());
    }
}

impl App {
    /// Markdown as lines.
    fn render_md(&self, md: &str) -> (r: Vec<Line>)
        ensures
            style::lines(r@) == md_lines(self@, md@),
    {
        if self.markdown {
            markdown::render(md)
        } else {
            let parts = pieces::str_split_char(md, '\n');
            let r = span_lines(&parts, "", Style::colored(Color::White));
            proof {
                reveal_strlit("");
                assert forall|l: Seq<char>| #[trigger] (""@ + l) == l by {
                    assert(""@ + l =~= l);
                }
                assert(style::lines(r@) =~= md_lines(self@, md@));
            }
            r
        }
    }

    /// A thought as lines.
    fn render_thinking(&self, t: &str) -> (r: Vec<Line>)
        ensures
            style::lines(r@) == thought_lines(self@, t@),
    {
        let mut out: Vec<Line> = Vec::new();
        if !self.show_thinking {
            return out;
        }
        out.push(Line::of("✻ thinking".to_owned(), Style::bold(Color::Magenta)));
        let parts = pieces::str_split_char(t, '\n');
        let body = span_lines(&parts, "  ", muted_style(true));
        append_lines(&mut out, body);
        assert(style::lines(out@) =~= thought_lines(self@, t@));
        out
    }

    fn tool_call_line(&self, name: &str, detail: &str, status: ToolStatus) -> (r: Line)
        ensures
            r@ == tool_line(self@, name@, detail@, status),
    {
        let dot = match status {
            ToolStatus::Running => blink(self.spinner, Color::Cyan),
            ToolStatus::Done => Style::bold(Color::Green),
            ToolStatus::Failed => Style::bold(Color::Red),
        };
        let mut spans: Vec<Span> = Vec::new();
        spans.push(Span::styled("⏺ ".to_owned(), dot));
        spans.push(Span::styled(name.to_owned(), Style::bold(Color::Cyan)));
        if text::char_count(detail) > 0 {
            let mut d = "(".to_owned();
            d.push_str(detail);
            d.push_str(")");
            spans.push(Span::styled(d, Style::colored(Color::DarkGray)));
        }
        let l = Line { spans };
        assert(l@ =~= tool_line(self@, name@, detail@, status));
        l
    }

    fn add_entry(&self, p: &mut Page, b: &Block)
        ensures
            final(p)@ == page_with(self@, old(p)@, b@),
    {
        match b {
            Block::User(t) => {
                p.agent = None;
                push_blank(&mut p.lines);
                let mut spans: Vec<Span> = Vec::new();
                spans.push(Span::styled("› ".to_owned(), Style::bold(Color::Magenta)));
                spans.push(Span::styled(t.clone(), Style::bold(Color::White)));
                let l = Line { spans };
                assert(l@ =~= seq![
                    style::styled("› "@, style::bold(Color::Magenta)),
                    style::styled(t@, style::bold(Color::White)),
                ]);
                p.lines.push(l);
                push_blank(&mut p.lines);
            },
            Block::Assistant { agent, md } => {
                p.head(agent);
                let more = self.render_md(md);
                append_lines(&mut p.lines, more);
            },
            Block::Thinking(t) => {
                let more = self.render_thinking(t);
                append_lines(&mut p.lines, more);
            },
            Block::Plain(l) => {
                p.lines.push(l.duplicate());
            },
            Block::Tool { name, detail, status } => {
                let l = self.tool_call_line(name, detail, *status);
                p.lines.push(l);
            },
            Block::Rule(label) => {
                p.agent = None;
                push_blank(&mut p.lines);
                p.lines.push(separator_line(label));
            },
        }
    }

    fn hidden_thought_line(&self, now: u64, tokens: &str) -> (r: Line)
        ensures
            r@ == hidden_thought(self@, now, tokens@),
    {
        let mut t = "thinking…".to_owned();
        let el = elapsed_string(self.run_started, now);
        t.push_str(&el);
        let ghost body = t@;
        if self.run_tokens > 0 {
            let mut k = "  ".to_owned();
            k.push_str(tokens);
            t.push_str(&k);
        } else {
            assert(body + Seq::<char>::empty() =~= body);
        }
        let mut spans: Vec<Span> = Vec::new();
        spans.push(Span::styled("✻ ".to_owned(), blink(self.spinner, Color::Magenta)));
        spans.push(Span::styled(t, muted_style(false)));
        let l = Line { spans };
        assert(l@ =~= hidden_thought(self@, now, tokens@));
        l
    }

    /// All lines of the transcript at time `now`. `tokens` is the number of
    /// tokens of the run as text; `windows` says that the console needs plain
    /// signs.
    pub fn build_lines(&self, now: u64, tokens: &str, windows: bool) -> (r: Vec<Line>)
        ensures
            style::lines(r@) == transcript_lines(self@, now, tokens@, windows),
    {
        let ghost all = self@.blocks;
        let mut p = Page { lines: Vec::new(), agent: None };
        let mut i: usize = 0;
        while i < self.blocks.len()
            invariant
                i <= self.blocks@.len(),
                all == self@.blocks,
                p@ == page_of(self@, all.take(i as int)),
            decreases self.blocks@.len() - i,
        {
            assert(all.take(i + 1).drop_last() =~= all.take(i as int));
            assert(all.take(i + 1).last() == self.blocks@[i as int]@);
            self.add_entry(&mut p, &self.blocks[i]);
            i += 1;
        }
        assert(all.take(all.len() as int) =~= all);
        match &self.stream {
            None => {},
            Some(st) => {
                if st.thinking {
                    if self.show_thinking {
                        let more = self.render_thinking(&st.buf);
                        append_lines(&mut p.lines, more);
                    } else {
                        let l = self.hidden_thought_line(now, tokens);
                        p.lines.push(l);
                    }
                } else {
                    p.head(&st.agent);
                    let more = self.render_md(&st.buf);
                    append_lines(&mut p.lines, more);
                }
            },
        }
        let ghost want = transcript_lines(self@, now, tokens@, windows);
        let ghost shown = style::lines(p.lines@);
        let mut out: Vec<Line> = Vec::new();
        assert(want.take(0) =~= Seq::empty());
        let mut k: usize = 0;
        while k < p.lines.len()
            invariant
                k <= p.lines@.len(),
                shown == style::lines(p.lines@),
                want == shown.map_values(|l: Seq<style::SpanView>| safe_line(l, windows)),
                style::lines(out@) == want.take(k as int),
            decreases p.lines@.len() - k,
        {
            assert(shown[k as int] == p.lines@[k as int]@);
            let l = win_safe_line(&p.lines[k], windows);
            out.push(l);
            assert(want.take(k + 1) =~= want.take(k as int).push(want[k as int]));
            k += 1;
        }
        assert(want.take(want.len() as int) =~= want);
        out
    }
}

/// Plain signs keep every line as long as it was.
pub proof fn plain_signs_keep_widths(s: Seq<char>, windows: bool)
    ensures
        safe_text(s, windows).len() == s.len(),
        safe_text(safe_text(s, windows), windows) == safe_text(s, windows),
{
    assert(safe_text(safe_text(s, windows), windows) =~= safe_text(s, windows));
}

// ---- measures --------------------------------------------------------------------------

/// The smaller of two sizes.
pub open spec fn least(a: u16, b: u16) -> u16 {
    if a <= b {
        a
    } else {
        b
    }
}

/// A size kept between two others.
pub open spec fn clamped(x: u16, lo: u16, hi: u16) -> u16 {
    if x < lo {
        lo
    } else if x > hi {
        hi
    } else {
        x
    }
}

/// A size less `d`, not below nothing.
pub open spec fn less(x: u16, d: u16) -> u16 {
    if x >= d {
        (x - d) as u16
    } else {
        0
    }
}

fn clamp(x: u16, lo: u16, hi: u16) -> (r: u16)
    ensures
        r == clamped(x, lo, hi),
{
    if x < lo {
        lo
    } else if x > hi {
        hi
    } else {
        x
    }
}

fn minus(x: u16, d: u16) -> (r: u16)
    ensures
        r == less(x, d),
{
    if x >= d {
        x - d
    } else {
        0
    }
}

/// The characters of a row in a message box of that width: frame, padding and
/// prompt are taken off.
pub open spec fn text_width(area: u16) -> nat {
    if area > 6 {
        (area - 6) as nat
    } else {
        1
    }
}

/// The rows that a message takes at that width.
pub open spec fn message_rows(s: app::AppView, tw: nat) -> Seq<(int, int)> {
    editor::visual_rows(s.input, if tw == 0 {
        1
    } else {
        tw as int
    })
}

/// Where the message box shows the cursor: how far it is scrolled, and the
/// cursor's column and row on the screen.
pub struct CursorPlace {
    pub scroll: u16,
    pub x: u16,
    pub y: u16,
}

/// The place of the cursor in a box whose inside begins at `x`, `y`.
pub open spec fn place_of(
    x: u16,
    y: u16,
    width: u16,
    height: u16,
    row: u16,
    col: u16,
) -> CursorPlace {
    let shown = if height == 0 {
        1u16
    } else {
        height
    };
    let scroll = less((row + 1) as u16, shown);
    CursorPlace {
        scroll,
        x: least((x + 2 + col) as u16, (x + less(width, 1)) as u16),
        y: (y + less(row, scroll)) as u16,
    }
}

impl App {
    /// The characters of a row in a message box of that width.
    pub fn input_text_width(area_width: u16) -> (r: usize)
        ensures
            r == text_width(area_width),
            r >= 1,
    {
        if area_width > 6 {
            (area_width - 6) as usize
        } else {
            1
        }
    }

    /// The rows of the message by their bytes, and the cursor's row and column.
    pub fn input_wrap(&self, tw: usize) -> (r: (Vec<(usize, usize)>, u16, u16))
        requires
            session::editable(self@),
        ensures
            ({
                let rows = message_rows(self@, tw as nat);
                let k = editor::position(self@.input, self@.input_cursor as nat);
                let row = editor::row_of(rows, k);
                &&& r.0@.len() == rows.len()
                &&& forall|i: int|
                    0 <= i < r.0@.len() ==> (#[trigger] r.0@[i]).0 == editor::offset(
                        self@.input,
                        rows[i].0,
                    ) && r.0@[i].1 == editor::offset(self@.input, rows[i].1)
                &&& r.1 == row as u16
                &&& r.2 == (k - rows[row].0) as u16
            }),
    {
        let w: usize = if tw == 0 {
            1
        } else {
            tw
        };
        editor::wrap(&self.input, self.input_cursor, w)
    }

    /// The number of rows that the message takes.
    pub fn input_visual_rows(&self, tw: usize) -> (r: u16)
        ensures
            r == message_rows(self@, tw as nat).len() as u16,
    {
        let w: usize = if tw == 0 {
            1
        } else {
            tw
        };
        let n = editor::row_count(&self.input, w);
        #[verifier::truncate] (n as u16)
    }

    /// The height of the message box on a screen of that size: it grows with
    /// the message and leaves three rows to the rest.
    pub fn input_height(&self, width: u16, height: u16) -> (r: u16)
        requires
            message_rows(self@, text_width(width)).len() <= u16::MAX - 2,
        ensures
            r == clamped(
                (message_rows(self@, text_width(width)).len() + 2) as u16,
                3,
                if less(height, 3) < 3 {
                    3
                } else {
                    less(height, 3)
                },
            ),
    {
        let tw = App::input_text_width(width);
        let rows = self.input_visual_rows(tw);
        let rest = minus(height, 3);
        let cap = if rest < 3 {
            3
        } else {
            rest
        };
        clamp(rows + 2, 3, cap)
    }

    /// The width of the task panel beside a transcript of that width, where
    /// there is one.
    pub fn task_panel_width(&self, width: u16) -> (r: Option<u16>)
        ensures
            r == if self@.tasks.len() > 0 && width > 60 {
                Some(clamped(width / 4, 22, 36))
            } else {
                None
            },
    {
        if self.tasks.len() > 0 && width > 60 {
            Some(clamp(width / 4, 22, 36))
        } else {
            None
        }
    }

    /// The place of the cursor in a message box.
    pub fn cursor_place(x: u16, y: u16, width: u16, height: u16, row: u16, col: u16) -> (r:
        CursorPlace)
        requires
            row < u16::MAX,
            x + 2 + col <= u16::MAX,
            x + width <= u16::MAX,
            y + row <= u16::MAX,
        ensures
            r == place_of(x, y, width, height, row, col),
    {
        let shown = if height == 0 {
            1
        } else {
            height
        };
        let scroll = minus(row + 1, shown);
        let far: u16 = x + 2 + col;
        let edge: u16 = x + minus(width, 1);
        CursorPlace {
            scroll,
            x: if far <= edge {
                far
            } else {
                edge
            },
            y: y + minus(row, scroll),
        }
    }
}

// ---- titles ----------------------------------------------------------------------------

/// The title of the message box and the colour of its frame.
pub open spec fn input_title_text(s: app::AppView) -> (Seq<char>, Color) {
    match app::pending_label_text(s.pending) {
        Some(l) => (" answer: "@ + l + " (Enter to submit) "@, Color::Cyan),
        None => if s.running {
            (" message (Enter send · ^J newline · ^C cancels) "@, Color::Yellow)
        } else {
            (" message (Enter send · ^J newline) "@, Color::Green)
        },
    }
}

/// Where the work runs: workspace and current task, each cut to a length.
pub open spec fn location(s: app::AppView) -> Seq<Seq<char>> {
    let a = match s.workspace_name {
        Some(w) => seq!["⊞ "@ + text::truncated(w, 28)],
        None => Seq::empty(),
    };
    match s.task_label {
        Some(t) => a.push("▷ "@ + text::truncated(t, 32)),
        None => a,
    }
}

/// The way out of an overlay, as its title says it.
pub open spec fn overlay_way_out(k: OverlayKind) -> Seq<char> {
    match k {
        OverlayKind::Threads => "Esc → workspaces"@,
        OverlayKind::Workspaces => "Esc quit"@,
        OverlayKind::Models => "Esc close · ^P toggle"@,
        _ => "Esc close"@,
    }
}

/// The title of an overlay.
pub open spec fn overlay_title_text(o: blocks::OverlayView) -> Seq<char> {
    if o.detail_open {
        " "@ + o.title + " — detail (Esc back) "@
    } else {
        " "@ + o.title + " ("@ + digits::dec(blocks::visible_items(o).len())
            + ") — Enter select · "@ + overlay_way_out(o.kind) + " · ^C quit"@ + (if o.filter.len()
            == 0 {
            if session::is_picker(o.kind) {
                " · type to search"@
            } else {
                Seq::empty()
            }
        } else {
            " · search: "@ + o.filter
        }) + " "@
    }
}

/// The line of keys at the bottom.
pub open spec fn hint(s: app::AppView) -> Seq<char> {
    match s.overlay {
        Some(o) => "  "@ + (if session::is_picker(o.kind) {
            "type to search · "@
        } else {
            Seq::empty()
        }) + "↑/↓ move · Enter select · "@ + (match o.kind {
            OverlayKind::Threads => "Esc → workspaces"@,
            OverlayKind::Workspaces => "Esc → quit"@,
            _ => "Esc close"@,
        }) + " · ^C quit"@,
        None => if s.pending is Some {
            "  type your answer · Enter submit"@
        } else if s.select_mode {
            "  SELECT MODE — drag to select text, Cmd-C to copy · ^S exit select mode"@
        } else {
            let star = if s.has_workspace {
                Seq::empty()
            } else {
                "*"@
            };
            "  ^W workspaces · ^O threads · ^P model · ^F findings"@ + star + " · ^A approvals"@
                + star
                + " · ^L files · ^E open · ^Y copy · ^T thinking · ^R md · ^S select · Esc back · ^C quit"@
        },
    }
}

/// The signs of the working spinner, in turn.
pub const SPIN: [&'static str; 10] = ["⠋", "⠙", "⠹", "⠸", "⠼", "⠴", "⠦", "⠧", "⠇", "⠏"];

pub open spec fn on_off(b: bool) -> Seq<char> {
    if b {
        "on"@
    } else {
        "off"@
    }
}

/// The left part of the status line.
pub open spec fn status_text(s: app::AppView, now: u64) -> Seq<char> {
    " "@ + (if s.connected {
        "●"@
    } else {
        "○"@
    }) + " "@ + (if s.title.len() == 0 {
        "thread "@ + api::trunc_text(s.thread_id, 8)
    } else {
        text::truncated(s.title, 48)
    }) + "  ·  "@ + (if s.running {
        SPIN@[s.spinner as int % 10]@ + " "@ + s.status + elapsed_part(s.run_started, now)
    } else {
        s.status
    }) + "  ·  md:"@ + on_off(s.markdown) + "  think:"@ + on_off(s.show_thinking) + "  ⚙ "@
        + api::model_text(s.models, s.current_model) + (if s.select_mode {
        "  ⊙ SELECT"@
    } else {
        Seq::empty()
    })
}

fn on_off_word(b: bool) -> (r: &'static str)
    ensures
        r@ == on_off(b),
{
    if b {
        "on"
    } else {
        "off"
    }
}

/// A literal or nothing.
fn word_or_nothing(b: bool, w: &'static str) -> (r: String)
    ensures
        r@ == if b {
            w@
        } else {
            Seq::empty()
        },
{
    if b {
        w.to_owned()
    } else {
        String::new()
    }
}

impl App {
    /// The title of the message box and the colour of its frame.
    pub fn input_title(&self) -> (r: (String, Color))
        ensures
            (r.0@, r.1) == input_title_text(self@),
    {
        match self.pending_label() {
            Some(l) => {
                let mut t = " answer: ".to_owned();
                t.push_str(&l);
                t.push_str(" (Enter to submit) ");
                (t, Color::Cyan)
            },
            None => {
                if self.running {
                    (" message (Enter send · ^J newline · ^C cancels) ".to_owned(), Color::Yellow)
                } else {
                    (" message (Enter send · ^J newline) ".to_owned(), Color::Green)
                }
            },
        }
    }

    /// Where the work runs, for the corner of the transcript.
    pub fn location_text(&self) -> (r: Option<String>)
        ensures
            text::opt_view(r) == if location(self@).len() == 0 {
                None
            } else {
                Some(" "@ + pieces::join(location(self@), "  ·  "@) + " "@)
            },
    {
        let mut parts: Vec<String> = Vec::new();
        match &self.workspace_name {
            Some(w) => {
                let mut t = "⊞ ".to_owned();
                let c = text::truncate(w, 28);
                t.push_str(&c);
                parts.push(t);
                assert(text::views(parts@) =~= seq![t@]);
            },
            None => {},
        }
        match &self.task_label {
            Some(w) => {
                let mut t = "▷ ".to_owned();
                let c = text::truncate(w, 32);
                t.push_str(&c);
                parts.push(t);
            },
            None => {},
        }
        assert(text::views(parts@) =~= location(self@));
        if parts.len() == 0 {
            None
        } else {
            let mut t = " ".to_owned();
            let j = pieces::str_join(&parts, "  ·  ");
            t.push_str(&j);
            t.push_str(" ");
            Some(t)
        }
    }

    /// The title of the overlay.
    pub fn overlay_title(&self) -> (r: Option<String>)
        ensures
            text::opt_view(r) == match self@.overlay {
                Some(o) => Some(overlay_title_text(o)),
                None => None,
            },
    {
        match &self.overlay {
            None => None,
            Some(o) => {
                let mut t = " ".to_owned();
                t.push_str(&o.title);
                if o.detail_open {
                    t.push_str(" — detail (Esc back) ");
                } else {
                    t.push_str(" (");
                    let v = o.visible();
                    let n = digits::usize_to_string(v.len());
                    t.push_str(&n);
                    t.push_str(") — Enter select · ");
                    t.push_str(
                        match o.kind {
                            OverlayKind::Threads => "Esc → workspaces",
                            OverlayKind::Workspaces => "Esc quit",
                            OverlayKind::Models => "Esc close · ^P toggle",
                            _ => "Esc close",
                        },
                    );
                    t.push_str(" · ^C quit");
                    if text::char_count(&o.filter) == 0 {
                        let w = word_or_nothing(self.overlay_searchable(), " · type to search");
                        t.push_str(&w);
                    } else {
                        let mut w = " · search: ".to_owned();
                        w.push_str(&o.filter);
                        t.push_str(&w);
                    }
                    t.push_str(" ");
                }
                Some(t)
            },
        }
    }

    /// The line of keys at the bottom.
    pub fn hint_text(&self) -> (r: String)
        ensures
            r@ == hint(self@),
    {
        match &self.overlay {
            Some(o) => {
                let mut t = "  ".to_owned();
                let w = word_or_nothing(self.overlay_searchable(), "type to search · ");
                t.push_str(&w);
                t.push_str("↑/↓ move · Enter select · ");
                t.push_str(
                    match o.kind {
                        OverlayKind::Threads => "Esc → workspaces",
                        OverlayKind::Workspaces => "Esc → quit",
                        _ => "Esc close",
                    },
                );
                t.push_str(" · ^C quit");
                t
            },
            None => {
                if self.pending.is_some() {
                    "  type your answer · Enter submit".to_owned()
                } else if self.select_mode {
                    "  SELECT MODE — drag to select text, Cmd-C to copy · ^S exit select mode".to_owned()
                } else {
                    let star = word_or_nothing(!self.has_workspace, "*");
                    let mut t = "  ^W workspaces · ^O threads · ^P model · ^F findings".to_owned();
                    t.push_str(&star);
                    t.push_str(" · ^A approvals");
                    t.push_str(&star);
                    t.push_str(
                        " · ^L files · ^E open · ^Y copy · ^T thinking · ^R md · ^S select · Esc back · ^C quit",
                    );
                    t
                }
            },
        }
    }

    /// The left part of the status line at time `now`.
    pub fn status_line(&self, now: u64) -> (r: String)
        requires
            self@.title.len() == 0 ==> editor::can_cut(self@.thread_id, 8),
        ensures
            r@ == status_text(self@, now),
    {
        let mut t = " ".to_owned();
        t.push_str(
            if self.connected {
                "●"
            } else {
                "○"
            },
        );
        t.push_str(" ");
        if text::char_count(&self.title) == 0 {
            let mut c = "thread ".to_owned();
            let id = api::trunc(&self.thread_id, 8);
            c.push_str(&id);
            t.push_str(&c);
        } else {
            let c = text::truncate(&self.title, 48);
            t.push_str(&c);
        }
        t.push_str("  ·  ");
        if self.running {
            let signs = SPIN;
            let mut c = signs[self.spinner % 10].to_owned();
            c.push_str(" ");
            c.push_str(&self.status);
            let el = elapsed_string(self.run_started, now);
            c.push_str(&el);
            t.push_str(&c);
        } else {
            t.push_str(&self.status);
        }
        t.push_str("  ·  md:");
        t.push_str(on_off_word(self.markdown));
        t.push_str("  think:");
        t.push_str(on_off_word(self.show_thinking));
        t.push_str("  ⚙ ");
        let m = api::model_name(&self.models, self.current_model);
        t.push_str(&m);
        let w = word_or_nothing(self.select_mode, "  ⊙ SELECT");
        t.push_str(&w);
        t
    }
}

// ---- side panels -----------------------------------------------------------------------

/// One task of the panel as a line.
pub open spec fn task_line(t: blocks::TaskView, width: nat) -> Seq<style::SpanView> {
    let c = blocks::task_color(t.status);
    seq![
        style::styled(blocks::task_icon(t.status) + " "@, style::bold(c)),
        style::styled(
            text::truncated(
                t.title,
                if width >= 3 {
                    (width - 3) as nat
                } else {
                    0
                },
            ),
            style::colored(c),
        ),
    ]
}

/// The rows that an overlay shows.
pub open spec fn overlay_rows_text(o: blocks::OverlayView) -> Seq<Seq<char>> {
    blocks::visible_items(o).map_values(|i: usize| o.items[i as int].label)
}

/// The row of an overlay that is marked.
pub open spec fn overlay_marked(o: blocks::OverlayView) -> Option<nat> {
    let n = blocks::visible_items(o).len();
    if n == 0 {
        None
    } else if o.sel < n {
        Some(o.sel as nat)
    } else {
        Some((n - 1) as nat)
    }
}

/// The lines over an overlay: banner, who is signed in, and for the thread and
/// the model picker where they stand.
pub open spec fn overlay_banner_lines(s: app::AppView, kind: OverlayKind) -> Seq<
    Seq<style::SpanView>,
> {
    let top = seq![Seq::<style::SpanView>::empty()] + session::banner_lines(
        pieces::lines(session::BANNER@),
    );
    let signed = if s.auth_line.len() == 0 {
        top
    } else {
        top.push(seq![style::styled("   "@ + s.auth_line, style::bold(Color::Green))])
    };
    match kind {
        OverlayKind::Threads => signed.push(
            seq![
                style::styled(
                    "   ⊞ workspace: "@ + text::text_or(
                        s.workspace_name,
                        "(no workspace — all threads)"@,
                    ),
                    style::bold(Color::Cyan),
                ),
            ],
        ),
        OverlayKind::Models => signed.push(
            seq![
                style::styled(
                    "   ⚙ current model: "@ + api::model_text(s.models, s.current_model),
                    style::bold(Color::Cyan),
                ),
            ],
        ),
        _ => signed,
    }
}

impl App {
    /// The tasks of the panel as lines for that width.
    pub fn task_lines(&self, width: usize) -> (r: Vec<Line>)
        ensures
            style::lines(r@) == self@.tasks.map_values(
                |t: blocks::TaskView| task_line(t, width as nat),
            ),
    {
        let ghost want = self@.tasks.map_values(
            |t: blocks::TaskView| task_line(t, width as nat),
        );
        let room: usize = if width >= 3 {
            width - 3
        } else {
            0
        };
        let mut out: Vec<Line> = Vec::new();
        assert(want.take(0) =~= Seq::empty());
        let mut i: usize = 0;
        while i < self.tasks.len()
            invariant
                i <= self.tasks@.len(),
                want == self@.tasks.map_values(
                    |t: blocks::TaskView| task_line(t, width as nat),
                ),
                room == if width >= 3 {
                    (width - 3) as nat
                } else {
                    0
                },
                style::lines(out@) == want.take(i as int),
            decreases self.tasks@.len() - i,
        {
            assert(self@.tasks[i as int] == self.tasks@[i as int]@);
            let c = self.tasks[i].status.color();
            let mut sign = self.tasks[i].status.icon().to_owned();
            sign.push_str(" ");
            let mut spans: Vec<Span> = Vec::new();
            spans.push(Span::styled(sign, Style::bold(c)));
            spans.push(Span::styled(text::truncate(&self.tasks[i].title, room), Style::colored(c)));
            let l = Line { spans };
            assert(l@ =~= task_line(self@.tasks[i as int], width as nat));
            out.push(l);
            assert(want.take(i + 1) =~= want.take(i as int).push(want[i as int]));
            i += 1;
        }
        assert(want.take(want.len() as int) =~= want);
        out
    }

    /// The labels that the overlay shows.
    pub fn overlay_rows(&self) -> (r: Vec<String>)
        ensures
            text::views(r@) == match self@.overlay {
                Some(o) => overlay_rows_text(o),
                None => Seq::empty(),
            },
    {
        let mut out: Vec<String> = Vec::new();
        match &self.overlay {
            None => {},
            Some(o) => {
                let v = o.visible();
                let ghost want = overlay_rows_text(o@);
                proof {
                    let n: usize = o.items.len();
                    blocks::visible_positions(o@, o@.items.len() as int);
                }
                assert(want.take(0) =~= Seq::empty());
                let mut i: usize = 0;
                while i < v.len()
                    invariant
                        i <= v@.len(),
                        v@ == blocks::visible_items(o@),
                        want == overlay_rows_text(o@),
                        forall|k: int| 0 <= k < v@.len() ==> (#[trigger] v@[k]) < o.items@.len(),
                        text::views(out@) == want.take(i as int),
                    decreases v@.len() - i,
                {
                    assert(v@[i as int] < o.items@.len());
                    assert(o@.items[v@[i as int] as int].label == o.items@[v@[i as int] as int].label@);
                    out.push(o.items[v[i]].label.clone());
                    assert(want.take(i + 1) =~= want.take(i as int).push(want[i as int]));
                    i += 1;
                }
                assert(want.take(want.len() as int) =~= want);
            },
        }
        out
    }

    /// The row of the overlay that is marked.
    pub fn overlay_mark(&self) -> (r: Option<usize>)
        ensures
            match self@.overlay {
                Some(o) => match overlay_marked(o) {
                    Some(k) => r == Some(k as usize),
                    None => r is None,
                },
                None => r is None,
            },
    {
        match &self.overlay {
            None => None,
            Some(o) => {
                let v = o.visible();
                let n: usize = v.len();
                if n == 0 {
                    None
                } else if o.sel < n {
                    Some(o.sel)
                } else {
                    Some(n - 1)
                }
            },
        }
    }

    /// What the detail view of the overlay shows.
    pub fn overlay_detail(&self) -> (r: Vec<String>)
        ensures
            text::views(r@) == match self@.overlay {
                Some(o) => match blocks::item_under_cursor(o) {
                    Some(i) => o.items[i as int].detail,
                    None => Seq::empty(),
                },
                None => Seq::empty(),
            },
    {
        match &self.overlay {
            None => Vec::new(),
            Some(o) => match o.current() {
                Some(i) => {
                    assert(o@.items[i as int] == o.items@[i as int]@);
                    text::clone_strings(&o.items[i].detail)
                },
                None => Vec::new(),
            },
        }
    }

    /// The height of an overlay with that many rows in an area of that height.
    pub fn overlay_height(rows: usize, area: u16) -> (r: u16)
        ensures
            r == clamped(
                if rows as u16 + 2 <= u16::MAX {
                    (rows as u16 + 2) as u16
                } else {
                    u16::MAX
                },
                3,
                if area < 3 {
                    3
                } else {
                    area
                },
            ),
    {
        let n: u16 = #[verifier::truncate] (rows as u16);
        let needed: u16 = if n <= u16::MAX - 2 {
            n + 2
        } else {
            u16::MAX
        };
        let cap = if area < 3 {
            3
        } else {
            area
        };
        clamp(needed, 3, cap)
    }

    /// The lines over an overlay.
    pub fn overlay_banner(&self, kind: OverlayKind) -> (r: Vec<Line>)
        ensures
            style::lines(r@) == overlay_banner_lines(self@, kind),
    {
        let mut out: Vec<Line> = Vec::new();
        out.push(Line::blank());
        assert(style::lines(out@) =~= seq![Seq::<style::SpanView>::empty()]);
        append_lines(&mut out, session::banner());
        if text::char_count(&self.auth_line) > 0 {
            let mut t = "   ".to_owned();
            t.push_str(&self.auth_line);
            out.push(Line::of(t, Style::bold(Color::Green)));
        }
        match kind {
            OverlayKind::Threads => {
                let mut t = "   ⊞ workspace: ".to_owned();
                let w = text::opt_or(&self.workspace_name, "(no workspace — all threads)");
                t.push_str(&w);
                out.push(Line::of(t, Style::bold(Color::Cyan)));
            },
            OverlayKind::Models => {
                let mut t = "   ⚙ current model: ".to_owned();
                let m = api::model_name(&self.models, self.current_model);
                t.push_str(&m);
                out.push(Line::of(t, Style::bold(Color::Cyan)));
            },
            _ => {},
        }
        out
    }
}

/// The rows of the command popup.
pub const MAX_POPUP: usize = 10;

/// One command of the popup as a line.
pub open spec fn slash_line(c: blocks::SlashView) -> Seq<style::SpanView> {
    seq![
        style::styled("/"@ + c.name, style::colored(Color::Cyan)),
        style::styled(
            if c.argument_hint.len() == 0 {
                Seq::empty()
            } else {
                " "@ + c.argument_hint
            },
            style::colored(Color::DarkGray),
        ),
        style::styled("  "@ + text::truncated(c.description, 60), style::colored(Color::Gray)),
    ]
}

/// How many commands the popup shows.
pub open spec fn popup_len(s: app::AppView) -> nat {
    if session::slash_choices(s).len() <= MAX_POPUP {
        session::slash_choices(s).len()
    } else {
        MAX_POPUP as nat
    }
}

impl App {
    /// The commands of the popup as lines.
    pub fn slash_lines(&self) -> (r: Vec<Line>)
        ensures
            style::lines(r@) == session::slash_choices(self@).take(popup_len(self@) as int).map_values(
                |i: usize| slash_line(self@.slash_commands[i as int]),
            ),
    {
        let m = self.slash_matches();
        let shown: usize = if m.len() <= MAX_POPUP {
            m.len()
        } else {
            MAX_POPUP
        };
        let ghost want = m@.take(shown as int).map_values(
            |i: usize| slash_line(self@.slash_commands[i as int]),
        );
        let mut out: Vec<Line> = Vec::new();
        assert(want.take(0) =~= Seq::empty());
        let mut k: usize = 0;
        while k < shown
            invariant
                k <= shown <= m@.len(),
                forall|i: int| 0 <= i < m@.len() ==> (#[trigger] m@[i]) < self.slash_commands@.len(),
                want == m@.take(shown as int).map_values(
                    |i: usize| slash_line(self@.slash_commands[i as int]),
                ),
                style::lines(out@) == want.take(k as int),
            decreases shown - k,
        {
            assert(m@[k as int] < self.slash_commands@.len());
            let c = &self.slash_commands[m[k]];
            assert(self@.slash_commands[m@[k as int] as int] == blocks::slash_view(*c));
            let mut name = "/".to_owned();
            name.push_str(&c.name);
            let mut hint = String::new();
            if text::char_count(&c.argument_hint) > 0 {
                hint = " ".to_owned();
                hint.push_str(&c.argument_hint);
            }
            let mut what = "  ".to_owned();
            let d = text::truncate(&c.description, 60);
            what.push_str(&d);
            let mut spans: Vec<Span> = Vec::new();
            spans.push(Span::styled(name, Style::colored(Color::Cyan)));
            spans.push(Span::styled(hint, Style::colored(Color::DarkGray)));
            spans.push(Span::styled(what, Style::colored(Color::Gray)));
            let l = Line { spans };
            assert(l@ =~= slash_line(self@.slash_commands[m@[k as int] as int]));
            out.push(l);
            assert(want.take(k + 1) =~= want.take(k as int).push(want[k as int]));
            k += 1;
        }
        assert(want.take(want.len() as int) =~= want);
        out
    }

    /// The title of the popup.
    pub fn slash_title(&self) -> (r: String)
        ensures
            r@ == " /commands ("@ + digits::dec(session::slash_choices(self@).len())
                + ") — Tab complete · Esc cancel "@,
    {
        let m = self.slash_matches();
        let mut t = " /commands (".to_owned();
        let n = digits::usize_to_string(m.len());
        t.push_str(&n);
        t.push_str(") — Tab complete · Esc cancel ");
        t
    }

    /// The row of the popup that is marked.
    pub fn slash_mark(&self) -> (r: usize)
        ensures
            r == if popup_len(self@) == 0 {
                0
            } else if self@.slash_sel < popup_len(self@) {
                self@.slash_sel as nat
            } else {
                (popup_len(self@) - 1) as nat
            },
    {
        let m = self.slash_matches();
        let shown: usize = if m.len() <= MAX_POPUP {
            m.len()
        } else {
            MAX_POPUP
        };
        if shown == 0 {
            0
        } else if self.slash_sel < shown {
            self.slash_sel
        } else {
            shown - 1
        }
    }
}

} // verus!
