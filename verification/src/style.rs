//! Styled lines of terminal text.

use vstd::prelude::*;

verus! {

broadcast use vstd::seq::group_seq_axioms;

#[derive(Clone, Copy, Debug, PartialEq, Eq, Structural)]
pub enum Color {
    Black,
    Red,
    Green,
    Yellow,
    Blue,
    Magenta,
    Cyan,
    Gray,
    DarkGray,
    LightBlue,
    White,
}

/// Foreground colour (the terminal's own where there is none) and modifiers.
#[derive(Clone, Copy, Debug, PartialEq, Eq, Structural)]
pub struct Style {
    pub fg: Option<Color>,
    pub bold: bool,
    pub italic: bool,
    pub dim: bool,
    pub crossed_out: bool,
}

/// The terminal's own style.
pub open spec fn plain() -> Style {
    Style { fg: None, bold: false, italic: false, dim: false, crossed_out: false }
}

/// A colour without modifiers.
pub open spec fn colored(c: Color) -> Style {
    Style { fg: Some(c), bold: false, italic: false, dim: false, crossed_out: false }
}

/// A colour in bold.
pub open spec fn bold(c: Color) -> Style {
    Style { fg: Some(c), bold: true, italic: false, dim: false, crossed_out: false }
}

impl Style {
    /// The terminal's own style.
    pub fn plain() -> (r: Style)
        ensures
            r == plain(),
    {
        Style { fg: None, bold: false, italic: false, dim: false, crossed_out: false }
    }

    /// A colour without modifiers.
    pub fn colored(c: Color) -> (r: Style)
        ensures
            r == colored(c),
    {
        Style { fg: Some(c), bold: false, italic: false, dim: false, crossed_out: false }
    }

    /// A colour in bold.
    pub fn bold(c: Color) -> (r: Style)
        ensures
            r == bold(c),
    {
        Style { fg: Some(c), bold: true, italic: false, dim: false, crossed_out: false }
    }
}

/// A text in one style.
pub struct Span {
    pub content: String,
    pub style: Style,
}

pub struct SpanView {
    pub content: Seq<char>,
    pub style: Style,
}

impl View for Span {
    type V = SpanView;

    open spec fn view(&self) -> SpanView {
        SpanView { content: self.content@, style: self.style }
    }
}

/// The spans of one line.
pub struct Line {
    pub spans: Vec<Span>,
}

pub open spec fn spans(v: Seq<Span>) -> Seq<SpanView> {
    v.map_values(|s: Span| s@)
}

impl View for Line {
    type V = Seq<SpanView>;

    open spec fn view(&self) -> Seq<SpanView> {
        spans(self.spans@)
    }
}

pub open spec fn lines(v: Seq<Line>) -> Seq<Seq<SpanView>> {
    v.map_values(|l: Line| l@)
}

pub broadcast proof fn spans_push(v: Seq<Span>, s: Span)
    ensures
        #[trigger] spans(v.push(s)) == spans(v).push(s@),
{
    assert(spans(v.push(s)) =~= spans(v).push(s@));
}

pub broadcast proof fn spans_empty()
    ensures
        #[trigger] spans(Seq::<Span>::empty()) == Seq::<SpanView>::empty(),
{
    assert(spans(Seq::<Span>::empty()) =~= Seq::<SpanView>::empty());
}

pub broadcast proof fn lines_push(v: Seq<Line>, l: Line)
    ensures
        #[trigger] lines(v.push(l)) == lines(v).push(l@),
{
    assert(lines(v.push(l)) =~= lines(v).push(l@));
}

pub broadcast proof fn lines_empty()
    ensures
        #[trigger] lines(Seq::<Line>::empty()) == Seq::<Seq<SpanView>>::empty(),
{
    assert(lines(Seq::<Line>::empty()) =~= Seq::<Seq<SpanView>>::empty());
}

pub broadcast group group_styled {
    spans_push,
    spans_empty,
    lines_push,
    lines_empty,
}

/// A text in a style.
pub open spec fn styled(content: Seq<char>, style: Style) -> SpanView {
    SpanView { content, style }
}

impl Span {
    /// A text in a style.
    pub fn styled(content: String, style: Style) -> (r: Span)
        ensures
            r@ == styled(content@, style),
    {
        Span { content, style }
    }

    /// A copy of the span.
    pub fn duplicate(&self) -> (r: Span)
        ensures
            r@ == self@,
    {
        Span { content: self.content.clone(), style: self.style }
    }
}

impl Line {
    /// The blank line.
    pub fn blank() -> (r: Line)
        ensures
            r@ == Seq::<SpanView>::empty(),
    {
        broadcast use group_styled;

        Line { spans: Vec::new() }
    }

    /// A line of one span.
    pub fn of(content: String, style: Style) -> (r: Line)
        ensures
            r@ == seq![styled(content@, style)],
    {
        broadcast use group_styled;

        let mut v: Vec<Span> = Vec::new();
        v.push(Span { content, style });
        let l = Line { spans: v };
        assert(l@ =~= seq![styled(content@, style)]);
        l
    }

    /// A copy of the line.
    pub fn duplicate(&self) -> (r: Line)
        ensures
            r@ == self@,
    {
        broadcast use group_styled;

        let mut v: Vec<Span> = Vec::new();
        let mut i: usize = 0;
        assert(self@.take(0) =~= Seq::empty());
        while i < self.spans.len()
            invariant
                i <= self.spans@.len(),
                spans(v@) == self@.take(i as int),
            decreases self.spans@.len() - i,
        {
            let s = self.spans[i].duplicate();
            v.push(s);
            assert(self@.take(i as int + 1) =~= self@.take(i as int).push(self@[i as int]));
            i += 1;
        }
        assert(self@.take(self@.len() as int) =~= self@);
        Line { spans: v }
    }
}

/// The text of a line without its styles.
pub open spec fn line_text(l: Seq<SpanView>) -> Seq<char>
    decreases l.len(),
{
    if l.len() == 0 {
        Seq::empty()
    } else {
        line_text(l.drop_last()) + l.last().content
    }
}

impl Line {
    /// The text of the line without its styles.
    pub fn text(&self) -> (r: String)
        ensures
            r@ == line_text(self@),
    {
        let mut out = String::new();
        let mut i: usize = 0;
        assert(self@.take(0) =~= Seq::empty());
        while i < self.spans.len()
            invariant
                i <= self.spans@.len(),
                out@ == line_text(self@.take(i as int)),
            decreases self.spans@.len() - i,
        {
            out.push_str(&self.spans[i].content);
            assert(self@.take(i as int + 1).drop_last() =~= self@.take(i as int));
            i += 1;
        }
        assert(self@.take(self@.len() as int) =~= self@);
        out
    }
}

} // verus!
