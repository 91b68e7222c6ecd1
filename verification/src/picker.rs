//! Choosing from a list with a search filter, and asking for a line of text.

use vstd::prelude::*;
use crate::chat::{Key, KeyPress};
use crate::digits;
use crate::pieces;
use crate::ring;
use crate::session;
use crate::style;
use crate::style::{Color, Line};
use crate::text;

verus! {

broadcast use {
    vstd::seq::group_seq_axioms,
    vstd::string::group_string_axioms,
    text::views_push,
    text::views_empty,
    style::lines_push,
    style::lines_empty,
};

/// What came out of a picker.
#[derive(Clone, Copy, Debug, PartialEq, Eq, Structural)]
pub enum Nav {
    /// The row at this index was selected.
    Item(usize),
    /// Back to where the picker was opened.
    Back,
    /// Out of the program.
    Quit,
    /// The shortcut key was pressed on the row at this index.
    Shortcut(usize),
}

/// A list to choose from. Rows that cannot be selected are headers.
pub struct Picker {
    pub items: Vec<String>,
    pub selectable: Option<Vec<bool>>,
    pub filter: String,
    /// The cursor: a position among the rows that the filter keeps.
    pub sel: usize,
}

pub struct PickerView {
    pub items: Seq<Seq<char>>,
    pub selectable: Option<Seq<bool>>,
    pub filter: Seq<char>,
    pub sel: usize,
}

impl View for Picker {
    type V = PickerView;

    open spec fn view(&self) -> PickerView {
        PickerView {
            items: text::views(self.items@),
            selectable: match self.selectable {
                Some(m) => Some(m@),
                None => None,
            },
            filter: self.filter@,
            sel: self.sel,
        }
    }
}

/// The mask, where there is one, speaks of every row.
pub open spec fn well_formed(p: PickerView) -> bool {
    p.selectable matches Some(m) ==> m.len() == p.items.len()
}

pub open spec fn can_select(p: PickerView, i: int) -> bool {
    match p.selectable {
        Some(m) => m[i],
        None => true,
    }
}

/// The first row from `i` on that can be selected.
pub open spec fn first_selectable(p: PickerView, i: int) -> Option<int>
    decreases p.items.len() - i,
{
    if i < 0 || i >= p.items.len() {
        None
    } else if can_select(p, i) {
        Some(i)
    } else {
        first_selectable(p, i + 1)
    }
}

/// The filter keeps row `i`: it occurs in the row, whatever the case.
pub open spec fn keeps(p: PickerView, i: int) -> bool {
    text::contains(text::lowercase(p.items[i]), text::lowercase(p.filter))
}

/// The rows among the first `n` that the filter keeps, in order.
pub open spec fn kept_among(p: PickerView, n: int) -> Seq<usize>
    decreases n,
{
    if n <= 0 {
        Seq::empty()
    } else if keeps(p, n - 1) {
        kept_among(p, n - 1).push((n - 1) as usize)
    } else {
        kept_among(p, n - 1)
    }
}

/// The rows that the filter keeps, in order.
pub open spec fn kept(p: PickerView) -> Seq<usize> {
    kept_among(p, p.items.len() as int)
}

proof fn kept_are_rows(p: PickerView, n: int)
    requires
        0 <= n <= p.items.len() <= usize::MAX,
    ensures
        kept_among(p, n).len() <= n,
        forall|i: int| 0 <= i < kept_among(p, n).len() ==> (#[trigger] kept_among(p, n)[i]) < n,
    decreases n,
{
    if n > 0 {
        kept_are_rows(p, n - 1);
    }
}

/// The first position that can be selected, at most `left` steps from `at`.
pub open spec fn sought(p: PickerView, at: int, up: bool, left: nat) -> Option<int>
    decreases left,
{
    let v = kept(p);
    if left == 0 {
        None
    } else {
        let next = ring::stepped(at, v.len() as int, up);
        if can_select(p, v[next] as int) {
            Some(next)
        } else {
            sought(p, next, up, (left - 1) as nat)
        }
    }
}

/// The cursor on the next row up or down that can be selected, round the list.
pub open spec fn moved(p: PickerView, up: bool) -> PickerView {
    if kept(p).len() == 0 {
        p
    } else {
        match sought(p, p.sel as int, up, kept(p).len()) {
            Some(i) => PickerView { sel: i as usize, ..p },
            None => p,
        }
    }
}

/// The cursor within the rows that are shown.
pub open spec fn clamped(p: PickerView) -> PickerView {
    let n = kept(p).len();
    PickerView {
        sel: if n == 0 {
            0
        } else if p.sel < n {
            p.sel
        } else {
            (n - 1) as usize
        },
        ..p
    }
}

/// The picker as it is shown: the cursor is on a row, and on no header where
/// there is anything else.
pub open spec fn settled(p: PickerView) -> PickerView {
    let q = clamped(p);
    if q.sel < kept(q).len() && !can_select(q, kept(q)[q.sel as int] as int) {
        moved(q, false)
    } else {
        q
    }
}

/// The row under the cursor, where it can be selected.
pub open spec fn under_cursor(p: PickerView) -> Option<usize> {
    if p.sel < kept(p).len() && can_select(p, kept(p)[p.sel as int] as int) {
        Some(kept(p)[p.sel as int])
    } else {
        None
    }
}

/// A key: the picker after it, and what came out of it.
pub open spec fn key_taken(p: PickerView, k: KeyPress) -> (PickerView, Option<Nav>) {
    match k.key {
        Key::Char(c) => if k.ctrl {
            (
                p,
                if c == 'c' {
                    Some(Nav::Quit)
                } else {
                    None
                },
            )
        } else {
            (PickerView { filter: p.filter.push(c), sel: 0, ..p }, None)
        },
        Key::Up => (moved(p, true), None),
        Key::Down => (moved(p, false), None),
        Key::Enter | Key::Right => (
            p,
            match under_cursor(p) {
                Some(i) => Some(Nav::Item(i)),
                None => None,
            },
        ),
        Key::Tab => (
            p,
            match under_cursor(p) {
                Some(i) => Some(Nav::Shortcut(i)),
                None => None,
            },
        ),
        Key::Esc | Key::Left => (p, Some(Nav::Back)),
        Key::Backspace => (
            PickerView {
                filter: if p.filter.len() == 0 {
                    p.filter
                } else {
                    p.filter.drop_last()
                },
                sel: 0,
                ..p
            },
            None,
        ),
        _ => (p, None),
    }
}

/// The title over the list.
pub open spec fn titled(p: PickerView, title: Seq<char>) -> Seq<char> {
    " "@ + title + " ("@ + digits::dec(kept(p).len()) + ")"@ + (if p.filter.len() == 0 {
        Seq::empty()
    } else {
        " — search: "@ + p.filter
    }) + " "@
}

pub const HINT: &'static str =
    " type to search · ↑/↓ move · →/Enter select · ←/Esc back · Tab shortcut · ^C quit";

impl Picker {
    /// A picker over the items, its cursor on the first row that can be
    /// selected. There is none over no items: that is a step back at once.
    pub fn new(items: Vec<String>, selectable: Option<Vec<bool>>) -> (r: Result<Picker, Nav>)
        requires
            selectable matches Some(m) ==> m@.len() == items@.len(),
        ensures
            match r {
                Ok(p) => items@.len() > 0 && well_formed(p@) && ({
                    let fresh = PickerView {
                        items: text::views(items@),
                        selectable: match selectable {
                            Some(m) => Some(m@),
                            None => None,
                        },
                        filter: Seq::empty(),
                        sel: 0,
                    };
                    p@ == PickerView {
                        sel: match first_selectable(fresh, 0) {
                            Some(i) => i as usize,
                            None => 0,
                        },
                        ..fresh
                    }
                }),
                Err(n) => items@.len() == 0 && n == Nav::Back,
            },
    {
        if items.len() == 0 {
            return Err(Nav::Back);
        }
        let mut p = Picker { items, selectable, filter: "".to_owned(), sel: 0 };
        proof {
            reveal_strlit("");
            assert(p.filter@ =~= Seq::<char>::empty());
        }
        if let Some(i) = p.first() {
            p.sel = i;
        }
        Ok(p)
    }

    fn first(&self) -> (r: Option<usize>)
        requires
            well_formed(self@),
        ensures
            text::to_int(r) == first_selectable(self@, 0),
    {
        let n: usize = self.items.len();
        let mut i: usize = 0;
        while i < n
            invariant
                i <= n,
                n == self.items@.len(),
                well_formed(self@),
                first_selectable(self@, 0) == first_selectable(self@, i as int),
            decreases n - i,
        {
            if self.selects(i) {
                return Some(i);
            }
            i += 1;
        }
        None
    }

    fn selects(&self, i: usize) -> (r: bool)
        requires
            well_formed(self@),
            i < self.items@.len(),
        ensures
            r == can_select(self@, i as int),
    {
        match &self.selectable {
            Some(m) => m[i],
            None => true,
        }
    }

    /// The rows that the filter keeps, in order.
    pub fn visible(&self) -> (r: Vec<usize>)
        ensures
            r@ == kept(self@),
            forall|i: int| 0 <= i < r@.len() ==> (#[trigger] r@[i]) < self.items@.len(),
    {
        let mut out: Vec<usize> = Vec::new();
        let needle = text::to_lowercase(&self.filter);
        let n: usize = self.items.len();
        let mut i: usize = 0;
        while i < n
            invariant
                i <= n,
                n == self.items@.len(),
                needle@ == text::lowercase(self.filter@),
                out@ == kept_among(self@, i as int),
            decreases n - i,
        {
            let label = text::to_lowercase(&self.items[i]);
            assert(self@.items[i as int] == self.items@[i as int]@);
            if text::str_contains(&label, &needle) {
                out.push(i);
            }
            i += 1;
        }
        proof {
            kept_are_rows(self@, n as int);
        }
        out
    }

    /// Moves the cursor to the next row that can be selected.
    pub fn move_sel_mask(&mut self, up: bool)
        requires
            well_formed(old(self)@),
        ensures
            final(self)@ == moved(old(self)@, up),
            well_formed(final(self)@),
    {
        let v = self.visible();
        let n: usize = v.len();
        if n == 0 {
            return;
        }
        let ghost start = self@;
        let mut at: usize = self.sel;
        let mut left: usize = n;
        while left > 0
            invariant
                left <= n,
                n == v@.len(),
                n > 0,
                v@ == kept(start),
                self@ == start,
                start == old(self)@,
                well_formed(self@),
                forall|i: int| 0 <= i < v@.len() ==> (#[trigger] v@[i]) < self.items@.len(),
                sought(start, start.sel as int, up, n as nat) == sought(
                    start,
                    at as int,
                    up,
                    left as nat,
                ),
            decreases left,
        {
            at = ring::step(at, n, up);
            left -= 1;
            if self.selects(v[at]) {
                self.sel = at;
                return;
            }
        }
    }

    /// Brings the cursor onto a row before the picker is shown.
    pub fn settle(&mut self)
        requires
            well_formed(old(self)@),
        ensures
            final(self)@ == settled(old(self)@),
            well_formed(final(self)@),
    {
        let v = self.visible();
        let n: usize = v.len();
        if n == 0 {
            self.sel = 0;
        } else if self.sel >= n {
            self.sel = n - 1;
        }
        proof {
            same_rows(old(self)@, self@, self@.items.len() as int);
        }
        if self.sel < n && !self.selects(v[self.sel]) {
            self.move_sel_mask(false);
        }
    }

    fn chosen(&self) -> (r: Option<usize>)
        requires
            well_formed(self@),
        ensures
            r == under_cursor(self@),
    {
        let v = self.visible();
        if self.sel < v.len() && self.selects(v[self.sel]) {
            Some(v[self.sel])
        } else {
            None
        }
    }

    /// Takes a key, and says what came out of the picker, if it is done.
    pub fn on_key(&mut self, k: KeyPress) -> (r: Option<Nav>)
        requires
            well_formed(old(self)@),
        ensures
            (final(self)@, r) == key_taken(old(self)@, k),
            well_formed(final(self)@),
    {
        match k.key {
            Key::Char(c) => {
                if k.ctrl {
                    if c == 'c' {
                        Some(Nav::Quit)
                    } else {
                        None
                    }
                } else {
                    self.filter.push(c);
                    self.sel = 0;
                    None
                }
            },
            Key::Up => {
                self.move_sel_mask(true);
                None
            },
            Key::Down => {
                self.move_sel_mask(false);
                None
            },
            Key::Enter | Key::Right => match self.chosen() {
                Some(i) => Some(Nav::Item(i)),
                None => None,
            },
            Key::Tab => match self.chosen() {
                Some(i) => Some(Nav::Shortcut(i)),
                None => None,
            },
            Key::Esc | Key::Left => Some(Nav::Back),
            Key::Backspace => {
                self.filter = without_last(&self.filter);
                self.sel = 0;
                None
            },
            _ => None,
        }
    }

    /// The title over the list.
    pub fn title(&self, title: &str) -> (r: String)
        ensures
            r@ == titled(self@, title@),
    {
        let v = self.visible();
        let mut t = " ".to_owned();
        t.push_str(title);
        t.push_str(" (");
        let n = digits::usize_to_string(v.len());
        t.push_str(&n);
        t.push_str(")");
        let ghost before = t@;
        if !self.filter.as_str().is_empty() {
            let mut s = " — search: ".to_owned();
            s.push_str(&self.filter);
            t.push_str(&s);
        } else {
            assert(before + Seq::<char>::empty() =~= before);
        }
        t.push_str(" ");
        t
    }
}

proof fn same_rows(p: PickerView, q: PickerView, n: int)
    requires
        p.items == q.items,
        p.filter == q.filter,
    ensures
        kept_among(p, n) == kept_among(q, n),
    decreases n,
{
    if n > 0 {
        same_rows(p, q, n - 1);
    }
}

fn without_last(s: &str) -> (r: String)
    ensures
        r@ == if s@.len() == 0 {
            s@
        } else {
            s@.drop_last()
        },
{
    let n = text::char_count(s);
    if n == 0 {
        let r = s.to_owned();
        r
    } else {
        let r = text::str_range(s, 0, n - 1);
        assert(s@.subrange(0, n - 1) =~= s@.drop_last());
        r
    }
}

// ---- banner ------------------------------------------------------------------------------------

/// The lines below the art, the first `n` of them looked at: empty ones are
/// left out, the first that is not empty is green, the others are cyan.
pub open spec fn context_view(v: Seq<Seq<char>>, n: int) -> Seq<Seq<style::SpanView>>
    decreases n,
{
    if n <= 0 {
        Seq::empty()
    } else {
        let before = context_view(v, n - 1);
        if v[n - 1].len() == 0 {
            before
        } else {
            before.push(
                seq![
                    style::styled(
                        "   "@ + v[n - 1],
                        style::bold(
                            if before.len() == 0 {
                                Color::Green
                            } else {
                                Color::Cyan
                            },
                        ),
                    ),
                ],
            )
        }
    }
}

/// An empty line, the art, and the context below it.
pub open spec fn banner_view(auth: Seq<char>) -> Seq<Seq<style::SpanView>> {
    let v = pieces::split_char(auth, '\n');
    Seq::<Seq<style::SpanView>>::empty().push(Seq::empty()) + session::banner_lines(
        pieces::lines(session::BANNER@),
    ) + context_view(v, v.len() as int)
}

/// The banner over a picker. The context may have several lines.
pub fn banner_lines(auth: &str) -> (r: Vec<Line>)
    ensures
        style::lines(r@) == banner_view(auth@),
{
    let mut out: Vec<Line> = Vec::new();
    out.push(Line::blank());
    let mut art = session::banner();
    let ghost top = style::lines(out@);
    let ghost middle = style::lines(art@);
    let ghost v1 = out@;
    let ghost v2 = art@;
    out.append(&mut art);
    assert(style::lines(out@) =~= top + middle);
    let parts = pieces::str_split_char(auth, '\n');
    let ghost all = text::views(parts@);
    let n: usize = parts.len();
    let mut first = true;
    let mut i: usize = 0;
    assert(top + middle + context_view(all, 0) =~= top + middle);
    while i < n
        invariant
            i <= n,
            n == parts@.len(),
            all == text::views(parts@),
            first == (context_view(all, i as int).len() == 0),
            style::lines(out@) == top + middle + context_view(all, i as int),
        decreases n - i,
    {
        assert(all[i as int] == parts@[i as int]@);
        if !parts[i].as_str().is_empty() {
            let mut s = "   ".to_owned();
            s.push_str(&parts[i]);
            let c = if first {
                Color::Green
            } else {
                Color::Cyan
            };
            let ghost before = style::lines(out@);
            let l = Line::of(s, style::Style::bold(c));
            let ghost shown = l@;
            out.push(l);
            first = false;
            assert((top + middle + context_view(all, i as int)).push(shown) =~= top + middle
                + context_view(all, i as int).push(shown));
        }
        i += 1;
    }
    out
}

// ---- a line of text -----------------------------------------------------------------------------

/// What came out of a prompt for a line of text.
pub enum Prompted {
    Going,
    Cancelled,
    Entered(String),
}

pub enum PromptedView {
    Going,
    Cancelled,
    Entered(Seq<char>),
}

impl View for Prompted {
    type V = PromptedView;

    open spec fn view(&self) -> PromptedView {
        match self {
            Prompted::Going => PromptedView::Going,
            Prompted::Cancelled => PromptedView::Cancelled,
            Prompted::Entered(s) => PromptedView::Entered(s@),
        }
    }
}

/// A key in a prompt: the text after it, and what came out.
pub open spec fn prompt_taken(input: Seq<char>, k: KeyPress) -> (Seq<char>, PromptedView) {
    match k.key {
        Key::Char(c) => if k.ctrl && c == 'c' {
            (input, PromptedView::Cancelled)
        } else {
            (input.push(c), PromptedView::Going)
        },
        Key::Enter => (input, PromptedView::Entered(input)),
        Key::Esc => (input, PromptedView::Cancelled),
        Key::Backspace => (
            if input.len() == 0 {
                input
            } else {
                input.drop_last()
            },
            PromptedView::Going,
        ),
        _ => (input, PromptedView::Going),
    }
}

/// Takes a key in a prompt for a line of text.
pub fn prompt_key(input: &mut String, k: KeyPress) -> (r: Prompted)
    ensures
        (final(input)@, r@) == prompt_taken(old(input)@, k),
{
    match k.key {
        Key::Char(c) => {
            if k.ctrl && c == 'c' {
                Prompted::Cancelled
            } else {
                input.push(c);
                Prompted::Going
            }
        },
        Key::Enter => Prompted::Entered(input.clone()),
        Key::Esc => Prompted::Cancelled,
        Key::Backspace => {
            *input = without_last(input);
            Prompted::Going
        },
        _ => Prompted::Going,
    }
}

// ---- waiting ---------------------------------------------------------------------------------------

/// The sign that turns while something is fetched.
pub open spec fn frame_text(i: int) -> Seq<char> {
    let k = i % 10;
    if k == 0 {
        "⠋"@
    } else if k == 1 {
        "⠙"@
    } else if k == 2 {
        "⠹"@
    } else if k == 3 {
        "⠸"@
    } else if k == 4 {
        "⠼"@
    } else if k == 5 {
        "⠴"@
    } else if k == 6 {
        "⠦"@
    } else if k == 7 {
        "⠧"@
    } else if k == 8 {
        "⠇"@
    } else {
        "⠏"@
    }
}

/// The line under the banner while something is fetched, in its `i`-th frame.
pub fn loading_line(i: usize, label: &str) -> (r: String)
    ensures
        r@ == "   "@ + frame_text(i as int) + " "@ + label@,
{
    let k: usize = i % 10;
    let sign = if k == 0 {
        "⠋"
    } else if k == 1 {
        "⠙"
    } else if k == 2 {
        "⠹"
    } else if k == 3 {
        "⠸"
    } else if k == 4 {
        "⠼"
    } else if k == 5 {
        "⠴"
    } else if k == 6 {
        "⠦"
    } else if k == 7 {
        "⠧"
    } else if k == 8 {
        "⠇"
    } else {
        "⠏"
    };
    let mut t = "   ".to_owned();
    t.push_str(sign);
    t.push_str(" ");
    t.push_str(label);
    t
}

// ---- laws -------------------------------------------------------------------------------------------

/// Only a row that the filter keeps and that can be selected comes out of a
/// picker.
pub proof fn no_header_is_chosen(p: PickerView, k: KeyPress)
    requires
        well_formed(p),
        p.items.len() <= usize::MAX,
    ensures
        key_taken(p, k).1 matches Some(Nav::Item(i)) ==> i < p.items.len() && can_select(
            p,
            i as int,
        ) && keeps(p, i as int),
        key_taken(p, k).1 matches Some(Nav::Shortcut(i)) ==> i < p.items.len() && can_select(
            p,
            i as int,
        ) && keeps(p, i as int),
{
    kept_are_rows(p, p.items.len() as int);
    kept_are_kept(p, p.items.len() as int);
}

proof fn kept_are_kept(p: PickerView, n: int)
    requires
        0 <= n <= p.items.len() <= usize::MAX,
    ensures
        forall|i: int|
            0 <= i < kept_among(p, n).len() ==> keeps(p, (#[trigger] kept_among(p, n)[i]) as int),
    decreases n,
{
    if n > 0 {
        kept_are_kept(p, n - 1);
        assert forall|i: int| 0 <= i < kept_among(p, n).len() implies keeps(
            p,
            (#[trigger] kept_among(p, n)[i]) as int,
        ) by {
            if i < kept_among(p, n - 1).len() {
                assert(kept_among(p, n)[i] == kept_among(p, n - 1)[i]);
            }
        }
    }
}

/// Steps down from `at` to `j` in a ring of `n`.
spec fn distance(at: int, j: int, n: int) -> int {
    if j > at {
        j - at
    } else {
        j - at + n
    }
}

proof fn seeking_finds(p: PickerView, at: int, j: int, left: nat)
    requires
        0 <= at < kept(p).len(),
        0 <= j < kept(p).len(),
        can_select(p, kept(p)[j] as int),
        distance(at, j, kept(p).len() as int) <= left,
    ensures
        sought(p, at, false, left) matches Some(i) && 0 <= i < kept(p).len() && can_select(
            p,
            kept(p)[i] as int,
        ),
    decreases left,
{
    let n = kept(p).len() as int;
    let next = ring::stepped(at, n, false);
    assert(next == if at == n - 1 {
        0
    } else {
        at + 1
    }) by {
        if at == n - 1 {
            vstd::arithmetic::div_mod::lemma_mod_self_0(n);
        } else {
            vstd::arithmetic::div_mod::lemma_small_mod((at + 1) as nat, n as nat);
        }
    }
    if !can_select(p, kept(p)[next] as int) {
        seeking_finds(p, next, j, (left - 1) as nat);
    }
}

/// Where the filter keeps any row that can be selected, the cursor of a picker
/// that is shown stands on such a row.
pub proof fn cursor_rests_on_a_row(p: PickerView, j: int)
    requires
        p.items.len() <= usize::MAX,
        0 <= j < kept(p).len(),
        can_select(p, kept(p)[j] as int),
    ensures
        under_cursor(settled(p)) is Some,
{
    let q = clamped(p);
    let n = p.items.len() as int;
    kept_are_rows(p, n);
    same_rows(p, q, n);
    if !can_select(q, kept(q)[q.sel as int] as int) {
        seeking_finds(q, q.sel as int, j, kept(q).len());
        same_rows(p, settled(p), n);
    }
}

} // verus!
