//! Markdown for the terminal: events of the parser to styled lines, and the
//! links of a text.

use pulldown_cmark::{Event as CmEvent, Options, Parser, Tag as CmTag, TagEnd};
use vstd::prelude::*;
use crate::digits;
use crate::pieces;
use crate::style;
use crate::style::{Color, Line, Span, Style};
use crate::text;

verus! {

broadcast use {
    vstd::seq::group_seq_axioms,
    vstd::string::group_string_axioms,
    style::group_styled,
    text::views_push,
    text::views_empty,
};

// ---- events --------------------------------------------------------------------

/// The elements that the renderer knows.
#[derive(Clone, Copy, Debug, PartialEq, Eq, Structural)]
pub enum Tag {
    Table,
    TableHead,
    TableRow,
    TableCell,
    /// A heading of a level, one to six.
    Heading(u8),
    Paragraph,
    List,
    Item,
    BlockQuote,
    CodeBlock,
    Strong,
    Emphasis,
    Strikethrough,
    Link,
    Other,
}

/// One event of the parser.
pub enum Event {
    Start(Tag),
    /// A list: numbered from a number on, or with bullets.
    StartList(Option<u64>),
    /// A link to a destination.
    StartLink(String),
    End(Tag),
    Text(String),
    Code(String),
    SoftBreak,
    HardBreak,
    Rule,
    Other,
}

pub enum EventView {
    Start(Tag),
    StartList(Option<u64>),
    StartLink(Seq<char>),
    End(Tag),
    Text(Seq<char>),
    Code(Seq<char>),
    SoftBreak,
    HardBreak,
    Rule,
    Other,
}

impl View for Event {
    type V = EventView;

    open spec fn view(&self) -> EventView {
        match self {
            Event::Start(t) => EventView::Start(*t),
            Event::StartList(n) => EventView::StartList(*n),
            Event::StartLink(u) => EventView::StartLink(u@),
            Event::End(t) => EventView::End(*t),
            Event::Text(t) => EventView::Text(t@),
            Event::Code(t) => EventView::Code(t@),
            Event::SoftBreak => EventView::SoftBreak,
            Event::HardBreak => EventView::HardBreak,
            Event::Rule => EventView::Rule,
            Event::Other => EventView::Other,
        }
    }
}

pub open spec fn events(v: Seq<Event>) -> Seq<EventView> {
    v.map_values(|e: Event| e@)
}

/// The end tag of an element, as the parser has it.
#[verifier::external_type_specification]
#[verifier::external_body]
pub struct ExTagEnd(pulldown_cmark::TagEnd);

/// An event whose element is still the parser's own.
pub enum RawEvent {
    Start(TagEnd),
    StartList(Option<u64>),
    StartLink(String),
    End(TagEnd),
    Text(String),
    Code(String),
    SoftBreak,
    HardBreak,
    Rule,
    Other,
}

/// Which of the elements that the renderer knows an end tag belongs to.
pub uninterp spec fn tag_of(t: TagEnd) -> Tag;

/// The events that `pulldown_cmark::Parser` yields on a text with the given
/// option bits.
pub uninterp spec fn parsed_events(md: Seq<char>, options: u32) -> Seq<EventView>;

pub open spec fn raw_view(e: RawEvent) -> EventView {
    match e {
        RawEvent::Start(t) => EventView::Start(tag_of(t)),
        RawEvent::StartList(n) => EventView::StartList(n),
        RawEvent::StartLink(u) => EventView::StartLink(u@),
        RawEvent::End(t) => EventView::End(tag_of(t)),
        RawEvent::Text(t) => EventView::Text(t@),
        RawEvent::Code(t) => EventView::Code(t@),
        RawEvent::SoftBreak => EventView::SoftBreak,
        RawEvent::HardBreak => EventView::HardBreak,
        RawEvent::Rule => EventView::Rule,
        RawEvent::Other => EventView::Other,
    }
}

/// Calls `pulldown_cmark::Parser::new_ext` and lists the events that it
/// yields. Which events a text has is only named; a start event is taken by
/// the end tag that belongs to it, but for a list and a link.
#[verifier::external_body]
pub(crate) fn parse_events(md: &str, options: u32) -> (r: Vec<RawEvent>)
    ensures
        r@.map_values(|e: RawEvent| raw_view(e)) == parsed_events(md@, options),
{
    let opts = Options::from_bits_truncate(options);
    Parser::new_ext(md, opts).map(|e| match e {
        CmEvent::Start(CmTag::List(n)) => RawEvent::StartList(n),
        CmEvent::Start(CmTag::Link { dest_url: u, .. }) => RawEvent::StartLink(u.to_string()),
        CmEvent::Start(t) => RawEvent::Start(t.to_end()),
        CmEvent::End(t) => RawEvent::End(t),
        CmEvent::Text(t) => RawEvent::Text(t.to_string()),
        CmEvent::Code(t) => RawEvent::Code(t.to_string()),
        CmEvent::SoftBreak => RawEvent::SoftBreak,
        CmEvent::HardBreak => RawEvent::HardBreak,
        CmEvent::Rule => RawEvent::Rule,
        _ => RawEvent::Other,
    }).collect()
}

/// Tells the variants of `pulldown_cmark::TagEnd` apart.
#[verifier::external_body]
pub(crate) fn read_tag(t: &TagEnd) -> (r: Tag)
    ensures
        r == tag_of(*t),
{
    match t {
        TagEnd::Table => Tag::Table, TagEnd::TableHead => Tag::TableHead,
        TagEnd::TableRow => Tag::TableRow, TagEnd::TableCell => Tag::TableCell,
        TagEnd::Heading(l) => Tag::Heading(*l as u8),
        TagEnd::Paragraph => Tag::Paragraph, TagEnd::List(_) => Tag::List,
        TagEnd::Item => Tag::Item, TagEnd::BlockQuote(_) => Tag::BlockQuote,
        TagEnd::CodeBlock => Tag::CodeBlock, TagEnd::Strong => Tag::Strong,
        TagEnd::Emphasis => Tag::Emphasis,
        TagEnd::Strikethrough => Tag::Strikethrough,
        TagEnd::Link => Tag::Link, _ => Tag::Other,
    }
}

/// The events of a Markdown text.
pub fn events_of(md: &str, options: u32) -> (r: Vec<Event>)
    ensures
        events(r@) == parsed_events(md@, options),
{
    let raw = parse_events(md, options);
    let mut out: Vec<Event> = Vec::new();
    let mut i: usize = 0;
    let ghost want = raw@.map_values(|e: RawEvent| raw_view(e));
    assert(events(out@) =~= want.take(0));
    while i < raw.len()
        invariant
            i <= raw@.len(),
            want == raw@.map_values(|e: RawEvent| raw_view(e)),
            events(out@) == want.take(i as int),
        decreases raw@.len() - i,
    {
        let e = match &raw[i] {
            RawEvent::Start(t) => Event::Start(read_tag(t)),
            RawEvent::StartList(n) => Event::StartList(*n),
            RawEvent::StartLink(u) => Event::StartLink(u.clone()),
            RawEvent::End(t) => Event::End(read_tag(t)),
            RawEvent::Text(t) => Event::Text(t.clone()),
            RawEvent::Code(t) => Event::Code(t.clone()),
            RawEvent::SoftBreak => Event::SoftBreak,
            RawEvent::HardBreak => Event::HardBreak,
            RawEvent::Rule => Event::Rule,
            RawEvent::Other => Event::Other,
        };
        let ghost before = out@;
        out.push(e);
        proof {
            assert(events(before.push(e)) =~= events(before).push(e@));
            assert(want.take(i as int + 1) =~= want.take(i as int).push(want[i as int]));
        }
        i += 1;
    }
    assert(want.take(want.len() as int) =~= want);
    out
}

// ---- bare URLs -------------------------------------------------------------------

/// A character that ends a bare URL.
pub open spec fn ends_url(c: char) -> bool {
    ||| text::is_white(c)
    ||| c == '"'
    ||| c == '\''
    ||| c == '<'
    ||| c == '>'
    ||| c == '`'
    ||| c == ')'
    ||| c == ']'
    ||| c == '}'
}

/// Punctuation that is taken off the end of a bare URL.
pub open spec fn is_trailing(c: char) -> bool {
    c == '.' || c == ',' || c == ';' || c == ':' || c == '!' || c == '?'
}

/// The first position at or after `i` whose character ends a URL, or the end.
pub open spec fn url_end(s: Seq<char>, i: int) -> int
    decreases s.len() - i,
{
    if i < 0 || i >= s.len() || ends_url(s[i]) {
        i
    } else {
        url_end(s, i + 1)
    }
}

/// `s` without the punctuation at its end.
pub open spec fn strip_trailing(s: Seq<char>) -> Seq<char>
    decreases s.len(),
{
    if s.len() > 0 && is_trailing(s.last()) {
        strip_trailing(s.drop_last())
    } else {
        s
    }
}

/// A URL scheme of the web stands at position `i`.
pub open spec fn scheme_at(s: Seq<char>, i: int) -> bool {
    text::occurs_at(s, "http://"@, i) || text::occurs_at(s, "https://"@, i)
}

/// The bare URLs of `s` from position `i` on: each runs from its scheme to
/// the first character that ends it, without trailing punctuation, and counts
/// where it is longer than eight bytes.
pub open spec fn urls_from(s: Seq<char>, i: int) -> Seq<Seq<char>>
    decreases s.len() - i,
{
    if i < 0 || i >= s.len() {
        Seq::empty()
    } else if scheme_at(s, i) && i < url_end(s, i) <= s.len() {
        let url = strip_trailing(s.subrange(i, url_end(s, i)));
        let rest = urls_from(s, url_end(s, i));
        if text::byte_len(url) > 8 {
            seq![url] + rest
        } else {
            rest
        }
    } else {
        urls_from(s, i + 1)
    }
}

fn char_ends_url(c: char) -> (r: bool)
    ensures
        r == ends_url(c),
{
    text::char_is_white(c) || c == '"' || c == '\'' || c == '<' || c == '>' || c == '`' || c == ')'
        || c == ']' || c == '}'
}

fn chars_strip_trailing(v: &[char], from: usize, to: usize) -> (r: String)
    requires
        from <= to <= v@.len(),
    ensures
        r@ == strip_trailing(v@.subrange(from as int, to as int)),
{
    let mut j: usize = to;
    while j > from && (v[j - 1] == '.' || v[j - 1] == ',' || v[j - 1] == ';' || v[j - 1] == ':' || v[j
        - 1] == '!' || v[j - 1] == '?')
        invariant
            from <= j <= to <= v@.len(),
            strip_trailing(v@.subrange(from as int, to as int)) == strip_trailing(
                v@.subrange(from as int, j as int),
            ),
        decreases j,
    {
        let ghost w = v@.subrange(from as int, j as int);
        assert(w.last() == v@[j - 1]);
        assert(w.drop_last() =~= v@.subrange(from as int, j - 1));
        j -= 1;
    }
    if j > from {
        assert(v@.subrange(from as int, j as int).last() == v@[j - 1]);
    }
    text::string_range(v, from, j)
}

/// The bare `http` and `https` URLs of a text.
pub fn find_urls(s: &str) -> (r: Vec<String>)
    ensures
        text::views(r@) == urls_from(s@, 0),
{
    let v = text::chars_of(s);
    let http = text::chars_of("http://");
    let https = text::chars_of("https://");
    let mut out: Vec<String> = Vec::new();
    let mut i: usize = 0;
    assert(text::views(out@) + urls_from(v@, 0) =~= urls_from(v@, 0));
    while i < v.len()
        invariant
            i <= v@.len(),
            v@ == s@,
            http@ == "http://"@,
            https@ == "https://"@,
            text::views(out@) + urls_from(v@, i as int) == urls_from(v@, 0),
        decreases v@.len() - i,
    {
        if text::chars_occur_at(&v, &http, i) || text::chars_occur_at(&v, &https, i) {
            let mut end: usize = i;
            while end < v.len() && !char_ends_url(v[end])
                invariant
                    i <= end <= v@.len(),
                    url_end(v@, i as int) == url_end(v@, end as int),
                decreases v@.len() - end,
            {
                end += 1;
            }
            assert(url_end(v@, end as int) == end);
            if end == i {
                i += 1;
            } else {
                let url = chars_strip_trailing(&v, i, end);
                let ghost before = text::views(out@);
                let ghost rest = urls_from(v@, end as int);
                if text::str_byte_len(&url) > 8 {
                    out.push(url);
                    assert(before.push(url@) + rest =~= before + (seq![url@] + rest));
                }
                i = end;
            }
        } else {
            i += 1;
        }
    }
    assert(text::views(out@) + Seq::<Seq<char>>::empty() =~= text::views(out@));
    out
}

// ---- links -----------------------------------------------------------------------

/// The links found so far, and the link that is being read.
pub struct Links {
    pub found: Seq<(Seq<char>, Seq<char>)>,
    pub url: Option<Seq<char>>,
    pub label: Seq<char>,
}

/// A URL as a link with itself as its label.
pub open spec fn self_links(urls: Seq<Seq<char>>) -> Seq<(Seq<char>, Seq<char>)> {
    urls.map_values(|u: Seq<char>| (u, u))
}

/// The links after one more event.
pub open spec fn link_step(s: Links, e: EventView) -> Links {
    match e {
        EventView::StartLink(u) => Links { url: Some(u), label: Seq::empty(), ..s },
        EventView::End(Tag::Link) => match s.url {
            Some(u) => {
                let label = if pieces::is_blank(s.label) {
                    u
                } else {
                    pieces::trim(s.label)
                };
                Links { found: s.found.push((label, u)), url: None, ..s }
            },
            None => s,
        },
        EventView::Text(t) | EventView::Code(t) => if s.url is Some {
            Links { label: s.label + t, ..s }
        } else {
            Links { found: s.found + self_links(urls_from(t, 0)), ..s }
        },
        _ => s,
    }
}

/// The links after a list of events.
pub open spec fn links_after(ev: Seq<EventView>) -> Links
    decreases ev.len(),
{
    if ev.len() == 0 {
        Links { found: Seq::empty(), url: None, label: Seq::empty() }
    } else {
        link_step(links_after(ev.drop_last()), ev.last())
    }
}

/// The texts of a list of pairs.
pub open spec fn pairs(v: Seq<(String, String)>) -> Seq<(Seq<char>, Seq<char>)> {
    v.map_values(|p: (String, String)| (p.0@, p.1@))
}

proof fn pairs_push(v: Seq<(String, String)>, p: (String, String))
    ensures
        pairs(v.push(p)) == pairs(v).push((p.0@, p.1@)),
{
    assert(pairs(v.push(p)) =~= pairs(v).push((p.0@, p.1@)));
}

/// The `(label, url)` pairs that a list of events holds.
pub fn links_of_events(ev: &Vec<Event>) -> (r: Vec<(String, String)>)
    ensures
        pairs(r@) == links_after(events(ev@)).found,
{
    let mut found: Vec<(String, String)> = Vec::new();
    let mut url: Option<String> = None;
    let mut label = String::new();
    let mut i: usize = 0;
    let ghost all = events(ev@);
    assert(all.take(0) =~= Seq::empty());
    assert(pairs(found@) =~= Seq::empty());
    while i < ev.len()
        invariant
            i <= ev@.len(),
            all == events(ev@),
            pairs(found@) == links_after(all.take(i as int)).found,
            text::opt_view(url) == links_after(all.take(i as int)).url,
            label@ == links_after(all.take(i as int)).label,
        decreases ev@.len() - i,
    {
        let ghost before = links_after(all.take(i as int));
        proof {
            assert(all.take(i as int + 1).drop_last() =~= all.take(i as int));
            assert(all.take(i as int + 1).last() == ev@[i as int]@);
        }
        match &ev[i] {
            Event::StartLink(u) => {
                url = Some(u.clone());
                label = String::new();
            },
            Event::End(Tag::Link) => {
                if let Some(u) = url {
                    let shown = if pieces::str_is_blank(&label) {
                        u.clone()
                    } else {
                        pieces::str_trim(&label)
                    };
                    proof {
                        pairs_push(found@, (shown, u));
                    }
                    found.push((shown, u));
                    url = None;
                } else {
                    url = None;
                }
            },
            Event::Text(t) | Event::Code(t) => {
                if url.is_some() {
                    label.push_str(t);
                } else {
                    let urls = find_urls(t);
                    let ghost base = pairs(found@);
                    let ghost want = self_links(urls_from(t@, 0));
                    let mut k: usize = 0;
                    assert(base + want.take(0) =~= base);
                    while k < urls.len()
                        invariant
                            k <= urls@.len(),
                            text::views(urls@) == urls_from(t@, 0),
                            want == self_links(urls_from(t@, 0)),
                            pairs(found@) == base + want.take(k as int),
                        decreases urls@.len() - k,
                    {
                        let a = urls[k].clone();
                        let b = urls[k].clone();
                        proof {
                            assert(text::views(urls@)[k as int] == urls@[k as int]@);
                            pairs_push(found@, (a, b));
                            assert(base + want.take(k as int + 1) =~= (base + want.take(k as int)).push(
                                want[k as int],
                            ));
                        }
                        found.push((a, b));
                        k += 1;
                    }
                    assert(text::views(urls@).len() == urls@.len());
                    assert(want.take(want.len() as int) =~= want);
                }
            },
            _ => {},
        }
        i += 1;
    }
    assert(all.take(all.len() as int) =~= all);
    found
}

/// The `(label, url)` pairs of a Markdown text: its links and the bare URLs of
/// its prose.
pub fn extract_links(md: &str) -> (r: Vec<(String, String)>)
    ensures
        pairs(r@) == links_after(parsed_events(md@, 0)).found,
{
    let ev = events_of(md, 0);
    links_of_events(&ev)
}

// ---- tables ----------------------------------------------------------------------

pub open spec fn max(a: nat, b: nat) -> nat {
    if a >= b {
        a
    } else {
        b
    }
}

/// The most cells that a row has.
pub open spec fn column_count(rows: Seq<Seq<Seq<char>>>) -> nat
    decreases rows.len(),
{
    if rows.len() == 0 {
        0
    } else {
        max(column_count(rows.drop_last()), rows.last().len())
    }
}

/// The cell of a row, empty where the row is shorter.
pub open spec fn cell(row: Seq<Seq<char>>, i: int) -> Seq<char> {
    if 0 <= i < row.len() {
        row[i]
    } else {
        Seq::empty()
    }
}

/// The most characters that a cell of column `i` has.
pub open spec fn column_width(rows: Seq<Seq<Seq<char>>>, i: int) -> nat
    decreases rows.len(),
{
    if rows.len() == 0 {
        0
    } else {
        max(column_width(rows.drop_last(), i), cell(rows.last(), i).len())
    }
}

/// The first `n` columns of a row: each cell filled up to the column's width,
/// with a bar between two of `cols` columns.
pub open spec fn row_spans(
    rows: Seq<Seq<Seq<char>>>,
    row: Seq<Seq<char>>,
    look: Style,
    cols: nat,
    n: nat,
) -> Seq<style::SpanView>
    decreases n,
{
    if n == 0 {
        seq![style::styled("  "@, style::plain())]
    } else {
        let i = n - 1;
        let filled = style::styled(digits::pad_right(cell(row, i), ' ', column_width(rows, i)), look);
        let before = row_spans(rows, row, look, cols, (n - 1) as nat).push(filled);
        if n < cols {
            before.push(style::styled(" │ "@, style::colored(Color::DarkGray)))
        } else {
            before
        }
    }
}

/// The characters of the rule under the first `n` columns, with three for the
/// bar between two of them.
pub open spec fn rule_width(rows: Seq<Seq<Seq<char>>>, n: nat) -> nat
    decreases n,
{
    if n == 0 {
        0
    } else {
        rule_width(rows, (n - 1) as nat) + column_width(rows, n - 1) + (if n == 1 {
            0nat
        } else {
            3nat
        })
    }
}

/// The style of the cells of row `i`.
pub open spec fn row_look(i: int, header_rows: nat) -> Style {
    if i < header_rows {
        style::bold(Color::Cyan)
    } else {
        style::colored(Color::White)
    }
}

/// The lines of the first `n` rows of a table: aligned columns, and a rule
/// under the last header row.
pub open spec fn table_lines(rows: Seq<Seq<Seq<char>>>, header_rows: nat, n: nat) -> Seq<
    Seq<style::SpanView>,
>
    decreases n,
{
    if n == 0 {
        Seq::empty()
    } else {
        let cols = column_count(rows);
        let line = row_spans(rows, rows[n - 1], row_look(n - 1, header_rows), cols, cols);
        let before = table_lines(rows, header_rows, (n - 1) as nat).push(line);
        if header_rows > 0 && n == header_rows {
            before.push(
                seq![
                    style::styled(
                        "  "@ + pieces::repeat("─"@, rule_width(rows, cols)),
                        style::colored(Color::DarkGray),
                    ),
                ],
            )
        } else {
            before
        }
    }
}

/// The cells of a list of rows.
pub open spec fn grid(v: Seq<Vec<String>>) -> Seq<Seq<Seq<char>>> {
    v.map_values(|r: Vec<String>| text::views(r@))
}

proof fn grid_push(v: Seq<Vec<String>>, r: Vec<String>)
    ensures
        grid(v.push(r)) == grid(v).push(text::views(r@)),
{
    assert(grid(v.push(r)) =~= grid(v).push(text::views(r@)));
}

fn count_columns(rows: &Vec<Vec<String>>) -> (n: usize)
    ensures
        n == column_count(grid(rows@)),
{
    let mut n: usize = 0;
    let mut i: usize = 0;
    let ghost all = grid(rows@);
    assert(all.take(0) =~= Seq::empty());
    while i < rows.len()
        invariant
            i <= rows@.len(),
            all == grid(rows@),
            n == column_count(all.take(i as int)),
        decreases rows@.len() - i,
    {
        assert(all.take(i as int + 1).drop_last() =~= all.take(i as int));
        assert(all.take(i as int + 1).last() == text::views(rows@[i as int]@));
        if rows[i].len() > n {
            n = rows[i].len();
        }
        i += 1;
    }
    assert(all.take(all.len() as int) =~= all);
    n
}

fn measure_column(rows: &Vec<Vec<String>>, c: usize) -> (n: usize)
    ensures
        n == column_width(grid(rows@), c as int),
{
    let mut n: usize = 0;
    let mut i: usize = 0;
    let ghost all = grid(rows@);
    assert(all.take(0) =~= Seq::empty());
    while i < rows.len()
        invariant
            i <= rows@.len(),
            all == grid(rows@),
            n == column_width(all.take(i as int), c as int),
        decreases rows@.len() - i,
    {
        assert(all.take(i as int + 1).drop_last() =~= all.take(i as int));
        assert(all.take(i as int + 1).last() == text::views(rows@[i as int]@));
        let w: usize = if c < rows[i].len() {
            text::char_count(&rows[i][c])
        } else {
            0
        };
        if w > n {
            n = w;
        }
        i += 1;
    }
    assert(all.take(all.len() as int) =~= all);
    n
}

proof fn repeat_concat(s: Seq<char>, a: nat, b: nat)
    ensures
        pieces::repeat(s, a) + pieces::repeat(s, b) == pieces::repeat(s, a + b),
    decreases b,
{
    if b == 0 {
        assert(pieces::repeat(s, a) + Seq::<char>::empty() =~= pieces::repeat(s, a));
    } else {
        repeat_concat(s, a, (b - 1) as nat);
        assert(pieces::repeat(s, a) + (pieces::repeat(s, (b - 1) as nat) + s) =~= (pieces::repeat(s, a)
            + pieces::repeat(s, (b - 1) as nat)) + s);
    }
}

fn row_line(rows: &Vec<Vec<String>>, widths: &Vec<usize>, ri: usize, look: Style) -> (r: Line)
    requires
        ri < rows@.len(),
        widths@.len() == column_count(grid(rows@)),
        forall|i: int| 0 <= i < widths@.len() ==> widths@[i] == column_width(grid(rows@), i),
    ensures
        r@ == row_spans(grid(rows@), grid(rows@)[ri as int], look, widths@.len(), widths@.len()),
{
    let row = &rows[ri];
    let mut v: Vec<Span> = Vec::new();
    v.push(Span::styled("  ".to_owned(), Style::plain()));
    let ghost all = grid(rows@);
    assert(style::spans(v@) =~= seq![style::styled("  "@, style::plain())]);
    let mut i: usize = 0;
    while i < widths.len()
        invariant
            i <= widths@.len(),
            ri < rows@.len(),
            all == grid(rows@),
            row == rows@[ri as int],
            forall|k: int| 0 <= k < widths@.len() ==> widths@[k] == column_width(all, k),
            style::spans(v@) == row_spans(all, all[ri as int], look, widths@.len(), i as nat),
        decreases widths@.len() - i,
    {
        let c = if i < row.len() {
            row[i].clone()
        } else {
            String::new()
        };
        assert(c@ =~= cell(all[ri as int], i as int));
        let filled = digits::str_pad_right(&c, ' ', widths[i]);
        v.push(Span::styled(filled, look));
        if i + 1 < widths.len() {
            v.push(Span::styled(" │ ".to_owned(), Style::colored(Color::DarkGray)));
        }
        i += 1;
    }
    Line { spans: v }
}

fn table_rule(rows: &Vec<Vec<String>>, widths: &Vec<usize>) -> (r: Line)
    requires
        forall|i: int| 0 <= i < widths@.len() ==> widths@[i] == column_width(grid(rows@), i),
    ensures
        r@ == seq![
            style::styled(
                "  "@ + pieces::repeat("─"@, rule_width(grid(rows@), widths@.len())),
                style::colored(Color::DarkGray),
            ),
        ],
{
    let mut s = "  ".to_owned();
    let ghost all = grid(rows@);
    let mut i: usize = 0;
    assert("  "@ + pieces::repeat("─"@, 0) =~= "  "@);
    while i < widths.len()
        invariant
            i <= widths@.len(),
            all == grid(rows@),
            forall|k: int| 0 <= k < widths@.len() ==> widths@[k] == column_width(all, k),
            s@ == "  "@ + pieces::repeat("─"@, rule_width(all, i as nat)),
        decreases widths@.len() - i,
    {
        let ghost done = rule_width(all, i as nat);
        let bars = pieces::str_repeat("─", widths[i]);
        s.push_str(&bars);
        proof {
            repeat_concat("─"@, done, widths@[i as int] as nat);
            assert(s@ =~= "  "@ + (pieces::repeat("─"@, done) + pieces::repeat("─"@, widths@[i as int] as nat)));
        }
        if i > 0 {
            let gap = pieces::str_repeat("─", 3);
            s.push_str(&gap);
            proof {
                let d = done + widths@[i as int] as nat;
                repeat_concat("─"@, d, 3);
                assert(s@ =~= "  "@ + (pieces::repeat("─"@, d) + pieces::repeat("─"@, 3)));
            }
        }
        i += 1;
    }
    Line::of(s, Style::colored(Color::DarkGray))
}

/// Appends the lines of a table.
pub fn render_table(lines: &mut Vec<Line>, rows: &Vec<Vec<String>>, header_rows: usize)
    ensures
        style::lines(final(lines)@) == style::lines(old(lines)@) + table_lines(
            grid(rows@),
            header_rows as nat,
            rows@.len(),
        ),
{
    let cols = count_columns(rows);
    let ghost all = grid(rows@);
    let mut widths: Vec<usize> = Vec::new();
    let mut c: usize = 0;
    while c < cols
        invariant
            c <= cols,
            all == grid(rows@),
            widths@.len() == c,
            forall|k: int| 0 <= k < c ==> widths@[k] == column_width(all, k),
        decreases cols - c,
    {
        let w = measure_column(rows, c);
        widths.push(w);
        c += 1;
    }
    let ghost base = style::lines(lines@);
    let mut i: usize = 0;
    assert(base + table_lines(all, header_rows as nat, 0) =~= base);
    while i < rows.len()
        invariant
            i <= rows@.len(),
            all == grid(rows@),
            widths@.len() == column_count(all),
            forall|k: int| 0 <= k < widths@.len() ==> widths@[k] == column_width(all, k),
            style::lines(lines@) == base + table_lines(all, header_rows as nat, i as nat),
        decreases rows@.len() - i,
    {
        let look = if i < header_rows {
            Style::bold(Color::Cyan)
        } else {
            Style::colored(Color::White)
        };
        let l = row_line(rows, &widths, i, look);
        let ghost before = style::lines(lines@);
        lines.push(l);
        if header_rows > 0 && i + 1 == header_rows {
            let rule = table_rule(rows, &widths);
            lines.push(rule);
        }
        assert(style::lines(lines@) =~= base + table_lines(all, header_rows as nat, (i + 1) as nat));
        i += 1;
    }
}

// ---- rendering -------------------------------------------------------------------

#[derive(Clone, Copy, Debug, PartialEq, Eq, Structural)]
pub enum ListKind {
    Bullet,
    /// The number of the next item.
    Ordered(u64),
}

/// What the renderer has made of the events so far.
pub struct Renderer {
    lines: Vec<Line>,
    cur: Vec<Span>,
    bold: u32,
    italic: u32,
    strike: u32,
    heading: Option<u8>,
    in_code_block: bool,
    lists: Vec<ListKind>,
    quote_depth: u32,
    in_cell: bool,
    cell_buf: String,
    row: Vec<String>,
    table_rows: Vec<Vec<String>>,
    header_rows: usize,
}

pub struct RenderView {
    /// The lines that are complete.
    pub lines: Seq<Seq<style::SpanView>>,
    /// The spans of the line that is being built.
    pub cur: Seq<style::SpanView>,
    pub bold: u32,
    pub italic: u32,
    pub strike: u32,
    pub heading: Option<u8>,
    pub in_code_block: bool,
    /// The lists that are open, the innermost last.
    pub lists: Seq<ListKind>,
    pub quote_depth: u32,
    pub in_cell: bool,
    pub cell_buf: Seq<char>,
    pub row: Seq<Seq<char>>,
    pub table_rows: Seq<Seq<Seq<char>>>,
    pub header_rows: nat,
}

impl View for Renderer {
    type V = RenderView;

    closed spec fn view(&self) -> RenderView {
        RenderView {
            lines: style::lines(self.lines@),
            cur: style::spans(self.cur@),
            bold: self.bold,
            italic: self.italic,
            strike: self.strike,
            heading: self.heading,
            in_code_block: self.in_code_block,
            lists: self.lists@,
            quote_depth: self.quote_depth,
            in_cell: self.in_cell,
            cell_buf: self.cell_buf@,
            row: text::views(self.row@),
            table_rows: grid(self.table_rows@),
            header_rows: self.header_rows as nat,
        }
    }
}

/// Nothing rendered yet.
pub open spec fn render_start() -> RenderView {
    RenderView {
        lines: Seq::empty(),
        cur: Seq::empty(),
        bold: 0,
        italic: 0,
        strike: 0,
        heading: None,
        in_code_block: false,
        lists: Seq::empty(),
        quote_depth: 0,
        in_cell: false,
        cell_buf: Seq::empty(),
        row: Seq::empty(),
        table_rows: Seq::empty(),
        header_rows: 0,
    }
}

/// The current line is complete.
pub open spec fn flushed(s: RenderView) -> RenderView {
    RenderView { lines: s.lines.push(s.cur), cur: Seq::empty(), ..s }
}

/// The current line is complete where it holds anything.
pub open spec fn flushed_if_any(s: RenderView) -> RenderView {
    if s.cur.len() > 0 {
        flushed(s)
    } else {
        s
    }
}

pub open spec fn with_blank(s: RenderView) -> RenderView {
    RenderView { lines: s.lines.push(Seq::empty()), ..s }
}

/// The gutters of `n` block quotes.
pub open spec fn gutters(n: nat) -> Seq<style::SpanView>
    decreases n,
{
    if n == 0 {
        Seq::empty()
    } else {
        gutters((n - 1) as nat).push(style::styled("▏ "@, style::colored(Color::DarkGray)))
    }
}

/// What a new line of a block begins with: quote gutters, and the indentation
/// of a nested list.
pub open spec fn line_prefix(s: RenderView) -> Seq<style::SpanView> {
    let g = gutters(s.quote_depth as nat);
    if s.lists.len() > 1 {
        g.push(style::styled(pieces::repeat("  "@, (s.lists.len() - 1) as nat), style::plain()))
    } else {
        g
    }
}

/// The number of the item after `n`.
pub open spec fn next_item(n: u64) -> u64 {
    if n == u64::MAX {
        0
    } else {
        (n + 1) as u64
    }
}

/// A new list item: its marker, and the counter of its list moved on.
pub open spec fn item_started(s: RenderView) -> RenderView {
    let t = flushed_if_any(s);
    let marker = match t.lists.last() {
        ListKind::Ordered(n) if t.lists.len() > 0 => digits::dec(n as nat) + ". "@,
        _ => "• "@,
    };
    RenderView {
        cur: (t.cur + line_prefix(t)).push(style::styled(marker, style::colored(Color::Cyan))),
        lists: match t.lists.last() {
            ListKind::Ordered(n) if t.lists.len() > 0 => t.lists.update(
                t.lists.len() - 1,
                ListKind::Ordered(next_item(n)),
            ),
            _ => t.lists,
        },
        ..t
    }
}

/// The style of prose under the emphasis that is open.
pub open spec fn inline_style(s: RenderView) -> Style {
    Style {
        fg: Some(Color::White),
        bold: s.bold > 0,
        italic: s.italic > 0,
        dim: false,
        crossed_out: s.strike > 0,
    }
}

/// The first `n` pieces of a code block's text, each on a line of its own.
pub open spec fn code_pieces(s: RenderView, p: Seq<Seq<char>>, n: nat) -> RenderView
    decreases n,
{
    if n == 0 {
        s
    } else {
        let t = code_pieces(s, p, (n - 1) as nat);
        let u = if n == 1 {
            t
        } else {
            flushed(t)
        };
        RenderView {
            cur: u.cur.push(style::styled("    "@ + p[n - 1], style::colored(Color::Green))),
            ..u
        }
    }
}

/// The spans of a heading, all in its colour.
pub open spec fn restyled(v: Seq<style::SpanView>, look: Style) -> Seq<style::SpanView> {
    v.map_values(|s: style::SpanView| style::styled(s.content, look))
}

/// The style of a heading.
pub open spec fn heading_style(level: Option<u8>) -> Style {
    match level {
        Some(n) if n <= 2 => style::bold(Color::Cyan),
        _ => style::bold(Color::LightBlue),
    }
}

pub open spec fn minus_one(n: u32) -> u32 {
    if n == 0 {
        0
    } else {
        (n - 1) as u32
    }
}

pub open spec fn plus_one(n: u32) -> u32 {
    if n == u32::MAX {
        0
    } else {
        (n + 1) as u32
    }
}

pub open spec fn started(s: RenderView, t: Tag) -> RenderView {
    match t {
        Tag::Table => RenderView { table_rows: Seq::empty(), header_rows: 0, ..flushed_if_any(s) },
        Tag::TableHead | Tag::TableRow => RenderView { row: Seq::empty(), ..s },
        Tag::TableCell => RenderView { in_cell: true, cell_buf: Seq::empty(), ..s },
        Tag::Heading(level) => {
            let f = flushed_if_any(s);
            let g = if f.lines.len() > 0 {
                with_blank(f)
            } else {
                f
            };
            RenderView { heading: Some(level), ..g }
        },
        Tag::Paragraph => {
            let f = flushed_if_any(s);
            RenderView { cur: f.cur + line_prefix(f), ..f }
        },
        Tag::Item => item_started(s),
        Tag::BlockQuote => {
            let f = flushed_if_any(s);
            RenderView { quote_depth: plus_one(f.quote_depth), ..f }
        },
        Tag::CodeBlock => RenderView { in_code_block: true, ..flushed_if_any(s) },
        Tag::Strong => RenderView { bold: plus_one(s.bold), ..s },
        Tag::Emphasis => RenderView { italic: plus_one(s.italic), ..s },
        Tag::Strikethrough => RenderView { strike: plus_one(s.strike), ..s },
        Tag::List | Tag::Link | Tag::Other => s,
    }
}

pub open spec fn ended(s: RenderView, t: Tag) -> RenderView {
    match t {
        Tag::Table => RenderView {
            lines: (s.lines + table_lines(s.table_rows, s.header_rows, s.table_rows.len())).push(
                Seq::empty(),
            ),
            table_rows: Seq::empty(),
            ..s
        },
        Tag::TableHead => RenderView {
            table_rows: s.table_rows.push(s.row),
            row: Seq::empty(),
            header_rows: 1,
            ..s
        },
        Tag::TableRow => RenderView { table_rows: s.table_rows.push(s.row), row: Seq::empty(), ..s },
        Tag::TableCell => RenderView {
            in_cell: false,
            row: s.row.push(pieces::trim(s.cell_buf)),
            ..s
        },
        Tag::Heading(_) => RenderView {
            lines: s.lines.push(restyled(s.cur, heading_style(s.heading))),
            cur: Seq::empty(),
            heading: None,
            ..s
        },
        Tag::Paragraph => {
            let f = flushed(s);
            if f.lists.len() == 0 {
                with_blank(f)
            } else {
                f
            }
        },
        Tag::List => {
            let f = RenderView {
                lists: if s.lists.len() > 0 {
                    s.lists.drop_last()
                } else {
                    s.lists
                },
                ..s
            };
            if f.lists.len() == 0 {
                with_blank(f)
            } else {
                f
            }
        },
        Tag::Item => flushed(s),
        Tag::BlockQuote => RenderView { quote_depth: minus_one(s.quote_depth), ..s },
        Tag::CodeBlock => RenderView { in_code_block: false, ..flushed_if_any(s) },
        Tag::Strong => RenderView { bold: minus_one(s.bold), ..s },
        Tag::Emphasis => RenderView { italic: minus_one(s.italic), ..s },
        Tag::Strikethrough => RenderView { strike: minus_one(s.strike), ..s },
        Tag::Link | Tag::Other => s,
    }
}

/// The rendering after one more event.
pub open spec fn render_step(s: RenderView, e: EventView) -> RenderView {
    match e {
        EventView::Start(t) => started(s, t),
        EventView::End(t) => ended(s, t),
        EventView::StartList(n) => {
            let f = flushed_if_any(s);
            RenderView {
                lists: f.lists.push(
                    match n {
                        Some(k) => ListKind::Ordered(k),
                        None => ListKind::Bullet,
                    },
                ),
                ..f
            }
        },
        EventView::StartLink(_) => s,
        EventView::Text(t) => if s.in_cell {
            RenderView { cell_buf: s.cell_buf + t, ..s }
        } else if s.in_code_block {
            code_pieces(s, pieces::split_char(t, '\n'), pieces::split_char(t, '\n').len())
        } else {
            RenderView { cur: s.cur.push(style::styled(t, inline_style(s))), ..s }
        },
        EventView::Code(t) => if s.in_cell {
            RenderView { cell_buf: s.cell_buf + t, ..s }
        } else {
            RenderView { cur: s.cur.push(style::styled(t, style::colored(Color::Yellow))), ..s }
        },
        EventView::SoftBreak => if s.in_cell {
            RenderView { cell_buf: s.cell_buf.push(' '), ..s }
        } else {
            RenderView { cur: s.cur.push(style::styled(" "@, style::plain())), ..s }
        },
        EventView::HardBreak => if s.in_cell {
            RenderView { cell_buf: s.cell_buf.push(' '), ..s }
        } else {
            flushed(s)
        },
        EventView::Rule => {
            let f = flushed_if_any(s);
            RenderView {
                lines: f.lines.push(
                    seq![style::styled(pieces::repeat("─"@, 40), style::colored(Color::DarkGray))],
                ),
                ..f
            }
        },
        EventView::Other => s,
    }
}

/// The rendering after a list of events.
pub open spec fn render_after(ev: Seq<EventView>) -> RenderView
    decreases ev.len(),
{
    if ev.len() == 0 {
        render_start()
    } else {
        render_step(render_after(ev.drop_last()), ev.last())
    }
}

impl Renderer {
    /// Nothing rendered yet.
    pub fn new() -> (r: Renderer)
        ensures
            r@ == render_start(),
    {
        let r = Renderer {
            lines: Vec::new(),
            cur: Vec::new(),
            bold: 0,
            italic: 0,
            strike: 0,
            heading: None,
            in_code_block: false,
            lists: Vec::new(),
            quote_depth: 0,
            in_cell: false,
            cell_buf: String::new(),
            row: Vec::new(),
            table_rows: Vec::new(),
            header_rows: 0,
        };
        assert(grid(r.table_rows@) =~= Seq::empty());
        assert(r@.lists =~= Seq::empty());
        r
    }

    fn flush(&mut self)
        ensures
            final(self)@ == flushed(old(self)@),
    {
        let mut taken: Vec<Span> = Vec::new();
        std::mem::swap(&mut taken, &mut self.cur);
        self.lines.push(Line { spans: taken });
        assert(self@.cur =~= Seq::empty());
    }

    fn flush_if_any(&mut self)
        ensures
            final(self)@ == flushed_if_any(old(self)@),
    {
        assert(self@.cur.len() == self.cur@.len());
        if self.cur.len() > 0 {
            self.flush();
        }
    }

    fn blank(&mut self)
        ensures
            final(self)@ == with_blank(old(self)@),
    {
        self.lines.push(Line::blank());
    }

    fn push_span(&mut self, content: String, look: Style)
        ensures
            final(self)@ == (RenderView {
                cur: old(self)@.cur.push(style::styled(content@, look)),
                ..old(self)@
            }),
    {
        self.cur.push(Span::styled(content, look));
    }

    fn push_prefix(&mut self)
        ensures
            final(self)@ == (RenderView { cur: old(self)@.cur + line_prefix(old(self)@), ..old(self)@ }),
    {
        let ghost base = self@;
        let mut i: u32 = 0;
        assert(base.cur + gutters(0) =~= base.cur);
        while i < self.quote_depth
            invariant
                i <= self.quote_depth,
                self.quote_depth == base.quote_depth,
                self.lists@ == base.lists,
                self@ == (RenderView { cur: base.cur + gutters(i as nat), ..base }),
            decreases self.quote_depth - i,
        {
            self.push_span("▏ ".to_owned(), Style::colored(Color::DarkGray));
            i += 1;
            assert(self@.cur =~= base.cur + gutters(i as nat));
        }
        if self.lists.len() > 1 {
            let pad = pieces::str_repeat("  ", self.lists.len() - 1);
            self.push_span(pad, Style::plain());
            assert(self@.cur =~= base.cur + line_prefix(base));
        }
    }

    fn start_item(&mut self)
        ensures
            final(self)@ == item_started(old(self)@),
    {
        self.flush_if_any();
        let ghost t = self@;
        self.push_prefix();
        let n: usize = self.lists.len();
        let mut marker = "• ".to_owned();
        if n > 0 {
            match self.lists[n - 1] {
                ListKind::Ordered(k) => {
                    marker = digits::u64_to_string(k);
                    marker.push_str(". ");
                    let next: u64 = if k == u64::MAX {
                        0
                    } else {
                        k + 1
                    };
                    self.lists.set(n - 1, ListKind::Ordered(next));
                },
                ListKind::Bullet => {},
            }
        }
        self.push_span(marker, Style::colored(Color::Cyan));
        assert(self@.lists =~= item_started(old(self)@).lists);
    }

    fn push_code(&mut self, t: &str)
        ensures
            final(self)@ == code_pieces(
                old(self)@,
                pieces::split_char(t@, '\n'),
                pieces::split_char(t@, '\n').len(),
            ),
    {
        let p = pieces::str_split_char(t, '\n');
        let ghost base = self@;
        let ghost want = pieces::split_char(t@, '\n');
        let mut i: usize = 0;
        assert(text::views(p@).len() == p@.len());
        while i < p.len()
            invariant
                i <= p@.len(),
                want == text::views(p@),
                want.len() == p@.len(),
                self@ == code_pieces(base, want, i as nat),
            decreases p@.len() - i,
        {
            if i > 0 {
                self.flush();
            }
            let mut s = "    ".to_owned();
            s.push_str(&p[i]);
            self.push_span(s, Style::colored(Color::Green));
            i += 1;
        }
    }

    fn end_heading(&mut self)
        ensures
            final(self)@ == ended(old(self)@, Tag::Heading(0)),
    {
        let look = match self.heading {
            Some(n) => if n <= 2 {
                Style::bold(Color::Cyan)
            } else {
                Style::bold(Color::LightBlue)
            },
            None => Style::bold(Color::LightBlue),
        };
        let ghost base = self@;
        let mut v: Vec<Span> = Vec::new();
        let mut i: usize = 0;
        let ghost want = restyled(base.cur, look);
        assert(style::spans(v@) =~= want.take(0));
        while i < self.cur.len()
            invariant
                i <= self.cur@.len(),
                self@ == base,
                want == restyled(base.cur, look),
                style::spans(v@) == want.take(i as int),
            decreases self.cur@.len() - i,
        {
            v.push(Span::styled(self.cur[i].content.clone(), look));
            assert(want.take(i as int + 1) =~= want.take(i as int).push(want[i as int]));
            i += 1;
        }
        assert(want.take(want.len() as int) =~= want);
        self.lines.push(Line { spans: v });
        self.cur = Vec::new();
        self.heading = None;
    }

    fn start(&mut self, t: Tag)
        ensures
            final(self)@ == started(old(self)@, t),
    {
        match t {
            Tag::Table => {
                self.flush_if_any();
                self.table_rows = Vec::new();
                self.header_rows = 0;
                assert(grid(self.table_rows@) =~= Seq::empty());
            },
            Tag::TableHead | Tag::TableRow => {
                self.row = Vec::new();
            },
            Tag::TableCell => {
                self.in_cell = true;
                self.cell_buf = String::new();
            },
            Tag::Heading(level) => {
                self.flush_if_any();
                assert(self@.lines.len() == self.lines@.len());
                if self.lines.len() > 0 {
                    self.blank();
                }
                self.heading = Some(level);
            },
            Tag::Paragraph => {
                self.flush_if_any();
                self.push_prefix();
            },
            Tag::Item => {
                self.start_item();
            },
            Tag::BlockQuote => {
                self.flush_if_any();
                self.quote_depth = if self.quote_depth == u32::MAX {
                    0
                } else {
                    self.quote_depth + 1
                };
            },
            Tag::CodeBlock => {
                self.flush_if_any();
                self.in_code_block = true;
            },
            Tag::Strong => {
                self.bold = if self.bold == u32::MAX {
                    0
                } else {
                    self.bold + 1
                };
            },
            Tag::Emphasis => {
                self.italic = if self.italic == u32::MAX {
                    0
                } else {
                    self.italic + 1
                };
            },
            Tag::Strikethrough => {
                self.strike = if self.strike == u32::MAX {
                    0
                } else {
                    self.strike + 1
                };
            },
            Tag::List | Tag::Link | Tag::Other => {},
        }
    }

    fn take_row(&mut self)
        ensures
            final(self)@ == ended(old(self)@, Tag::TableRow),
    {
        let mut taken: Vec<String> = Vec::new();
        std::mem::swap(&mut taken, &mut self.row);
        proof {
            grid_push(self.table_rows@, taken);
        }
        self.table_rows.push(taken);
    }

    fn end(&mut self, t: Tag)
        ensures
            final(self)@ == ended(old(self)@, t),
    {
        match t {
            Tag::Table => {
                let n = self.table_rows.len();
                assert(self@.table_rows.len() == n);
                render_table(&mut self.lines, &self.table_rows, self.header_rows);
                self.table_rows = Vec::new();
                assert(grid(self.table_rows@) =~= Seq::empty());
                self.blank();
            },
            Tag::TableHead => {
                self.take_row();
                self.header_rows = 1;
            },
            Tag::TableRow => {
                self.take_row();
            },
            Tag::TableCell => {
                self.in_cell = false;
                let c = pieces::str_trim(&self.cell_buf);
                self.row.push(c);
            },
            Tag::Heading(_) => {
                self.end_heading();
            },
            Tag::Paragraph => {
                self.flush();
                if self.lists.len() == 0 {
                    self.blank();
                }
            },
            Tag::List => {
                if self.lists.len() > 0 {
                    let _ = self.lists.pop();
                    assert(self.lists@ =~= old(self).lists@.drop_last());
                }
                if self.lists.len() == 0 {
                    self.blank();
                }
            },
            Tag::Item => {
                self.flush();
            },
            Tag::BlockQuote => {
                if self.quote_depth > 0 {
                    self.quote_depth = self.quote_depth - 1;
                }
            },
            Tag::CodeBlock => {
                self.flush_if_any();
                self.in_code_block = false;
            },
            Tag::Strong => {
                if self.bold > 0 {
                    self.bold = self.bold - 1;
                }
            },
            Tag::Emphasis => {
                if self.italic > 0 {
                    self.italic = self.italic - 1;
                }
            },
            Tag::Strikethrough => {
                if self.strike > 0 {
                    self.strike = self.strike - 1;
                }
            },
            Tag::Link | Tag::Other => {},
        }
    }

    /// Takes one event.
    pub fn step(&mut self, e: &Event)
        ensures
            final(self)@ == render_step(old(self)@, e@),
    {
        match e {
            Event::Start(t) => {
                self.start(*t);
            },
            Event::End(t) => {
                self.end(*t);
            },
            Event::StartList(n) => {
                self.flush_if_any();
                self.lists.push(
                    match n {
                        Some(k) => ListKind::Ordered(*k),
                        None => ListKind::Bullet,
                    },
                );
            },
            Event::StartLink(_) => {},
            Event::Text(t) => {
                if self.in_cell {
                    self.cell_buf.push_str(t);
                } else if self.in_code_block {
                    self.push_code(t);
                } else {
                    let look = Style {
                        fg: Some(Color::White),
                        bold: self.bold > 0,
                        italic: self.italic > 0,
                        dim: false,
                        crossed_out: self.strike > 0,
                    };
                    self.push_span(t.clone(), look);
                }
            },
            Event::Code(t) => {
                if self.in_cell {
                    self.cell_buf.push_str(t);
                } else {
                    self.push_span(t.clone(), Style::colored(Color::Yellow));
                }
            },
            Event::SoftBreak => {
                if self.in_cell {
                    self.cell_buf.push(' ');
                } else {
                    self.push_span(" ".to_owned(), Style::plain());
                }
            },
            Event::HardBreak => {
                if self.in_cell {
                    self.cell_buf.push(' ');
                } else {
                    self.flush();
                }
            },
            Event::Rule => {
                self.flush_if_any();
                let bar = pieces::str_repeat("─", 40);
                self.lines.push(Line::of(bar, Style::colored(Color::DarkGray)));
            },
            Event::Other => {},
        }
    }
}

// ---- blank lines -----------------------------------------------------------------

/// A line whose spans hold nothing but white space.
pub open spec fn is_blank_line(l: Seq<style::SpanView>) -> bool {
    forall|i: int| 0 <= i < l.len() ==> pieces::is_blank((#[trigger] l[i]).content)
}

/// The lines without those blank ones that begin the text or follow another
/// blank one; whether the last line kept is blank (or there is none).
pub open spec fn collapsed(v: Seq<Seq<style::SpanView>>) -> (Seq<Seq<style::SpanView>>, bool)
    decreases v.len(),
{
    if v.len() == 0 {
        (Seq::empty(), true)
    } else {
        let before = collapsed(v.drop_last());
        if is_blank_line(v.last()) && before.1 {
            before
        } else {
            (before.0.push(v.last()), is_blank_line(v.last()))
        }
    }
}

/// The lines without the blank ones at the end.
pub open spec fn without_trailing_blanks(v: Seq<Seq<style::SpanView>>) -> Seq<Seq<style::SpanView>>
    decreases v.len(),
{
    if v.len() > 0 && is_blank_line(v.last()) {
        without_trailing_blanks(v.drop_last())
    } else {
        v
    }
}

/// One blank line at most between two others, none at either end.
pub open spec fn compact(v: Seq<Seq<style::SpanView>>) -> Seq<Seq<style::SpanView>> {
    without_trailing_blanks(collapsed(v).0)
}

/// The lines that a list of events is rendered as.
pub open spec fn rendered(ev: Seq<EventView>) -> Seq<Seq<style::SpanView>> {
    compact(flushed_if_any(render_after(ev)).lines)
}

fn line_is_blank(l: &Line) -> (r: bool)
    ensures
        r == is_blank_line(l@),
{
    let mut i: usize = 0;
    while i < l.spans.len()
        invariant
            i <= l.spans@.len(),
            forall|k: int| 0 <= k < i ==> pieces::is_blank((#[trigger] l@[k]).content),
        decreases l.spans@.len() - i,
    {
        if !pieces::str_is_blank(&l.spans[i].content) {
            assert(!pieces::is_blank(l@[i as int].content));
            return false;
        }
        i += 1;
    }
    true
}

fn compact_lines(v: Vec<Line>) -> (r: Vec<Line>)
    ensures
        style::lines(r@) == compact(style::lines(v@)),
{
    let mut out: Vec<Line> = Vec::new();
    let mut prev_blank = true;
    let mut i: usize = 0;
    let ghost all = style::lines(v@);
    assert(all.take(0) =~= Seq::empty());
    while i < v.len()
        invariant
            i <= v@.len(),
            all == style::lines(v@),
            style::lines(out@) == collapsed(all.take(i as int)).0,
            prev_blank == collapsed(all.take(i as int)).1,
        decreases v@.len() - i,
    {
        assert(all.take(i as int + 1).drop_last() =~= all.take(i as int));
        assert(all.take(i as int + 1).last() == v@[i as int]@);
        let blank = line_is_blank(&v[i]);
        if !(blank && prev_blank) {
            prev_blank = blank;
            out.push(v[i].duplicate());
        }
        i += 1;
    }
    assert(all.take(all.len() as int) =~= all);
    let ghost full = style::lines(out@);
    while out.len() > 0 && line_is_blank(&out[out.len() - 1])
        invariant
            without_trailing_blanks(style::lines(out@)) == without_trailing_blanks(full),
        decreases out@.len(),
    {
        let ghost before = out@;
        assert(style::lines(before).last() == before.last()@);
        let _ = out.pop();
        assert(style::lines(out@) =~= style::lines(before).drop_last());
    }
    if out.len() > 0 {
        assert(style::lines(out@).last() == out@.last()@);
    }
    out
}

/// The styled lines of a list of events.
pub fn render_events(ev: &Vec<Event>) -> (r: Vec<Line>)
    ensures
        style::lines(r@) == rendered(events(ev@)),
{
    let mut s = Renderer::new();
    let mut i: usize = 0;
    let ghost all = events(ev@);
    assert(all.take(0) =~= Seq::empty());
    while i < ev.len()
        invariant
            i <= ev@.len(),
            all == events(ev@),
            s@ == render_after(all.take(i as int)),
        decreases ev@.len() - i,
    {
        assert(all.take(i as int + 1).drop_last() =~= all.take(i as int));
        assert(all.take(i as int + 1).last() == ev@[i as int]@);
        s.step(&ev[i]);
        i += 1;
    }
    assert(all.take(all.len() as int) =~= all);
    s.flush_if_any();
    compact_lines(s.lines)
}

/// The option bits that are rendered: tables and strikethrough.
pub const RENDER_OPTIONS: u32 = 10;

/// The styled lines of a Markdown text.
pub fn render(md: &str) -> (r: Vec<Line>)
    ensures
        style::lines(r@) == rendered(parsed_events(md@, RENDER_OPTIONS)),
{
    let ev = events_of(md, RENDER_OPTIONS);
    render_events(&ev)
}

// ---- laws ------------------------------------------------------------------------

proof fn collapsed_has_no_blank_pair(v: Seq<Seq<style::SpanView>>)
    ensures
        ({
            let c = collapsed(v).0;
            &&& collapsed(v).1 == (c.len() == 0 || is_blank_line(c.last()))
            &&& c.len() > 0 ==> !is_blank_line(c[0])
            &&& forall|i: int|
                0 <= i < c.len() - 1 ==> !(is_blank_line(#[trigger] c[i]) && is_blank_line(c[i + 1]))
        }),
    decreases v.len(),
{
    if v.len() > 0 {
        collapsed_has_no_blank_pair(v.drop_last());
        let b = collapsed(v.drop_last());
        let c = collapsed(v).0;
        if !(is_blank_line(v.last()) && b.1) {
            assert forall|i: int| 0 <= i < c.len() - 1 implies !(is_blank_line(#[trigger] c[i])
                && is_blank_line(c[i + 1])) by {
                if i < c.len() - 2 {
                    assert(c[i] == b.0[i] && c[i + 1] == b.0[i + 1]);
                } else {
                    assert(c[i] == b.0.last());
                }
            }
        }
    }
}

proof fn trailing_blanks_are_a_suffix(v: Seq<Seq<style::SpanView>>)
    ensures
        without_trailing_blanks(v).len() <= v.len(),
        without_trailing_blanks(v) == v.take(without_trailing_blanks(v).len() as int),
        without_trailing_blanks(v).len() > 0 ==> !is_blank_line(without_trailing_blanks(v).last()),
    decreases v.len(),
{
    if v.len() > 0 && is_blank_line(v.last()) {
        trailing_blanks_are_a_suffix(v.drop_last());
        let t = without_trailing_blanks(v);
        assert(v.drop_last().take(t.len() as int) =~= v.take(t.len() as int));
    } else {
        assert(v.take(v.len() as int) =~= v);
    }
}

/// A rendered text has no blank line at either end and no two blank lines in
/// a row.
pub proof fn rendered_text_is_compact(ev: Seq<EventView>)
    ensures
        ({
            let r = rendered(ev);
            &&& r.len() > 0 ==> !is_blank_line(r[0]) && !is_blank_line(r.last())
            &&& forall|i: int|
                0 <= i < r.len() - 1 ==> !(is_blank_line(#[trigger] r[i]) && is_blank_line(r[i + 1]))
        }),
{
    let v = flushed_if_any(render_after(ev)).lines;
    collapsed_has_no_blank_pair(v);
    trailing_blanks_are_a_suffix(collapsed(v).0);
    let c = collapsed(v).0;
    let r = rendered(ev);
    assert forall|i: int| 0 <= i < r.len() - 1 implies !(is_blank_line(#[trigger] r[i])
        && is_blank_line(r[i + 1])) by {
        assert(r[i] == c[i] && r[i + 1] == c[i + 1]);
    }
}

} // verus!
