//! Keys: what each of them does to the message, the lists and the view.

use vstd::prelude::*;
use crate::app::AppView;
use crate::blocks;
use crate::blocks::{AnswerView, BlockView, OverlayKind, OverlayView, PendingView, SlashView};
use crate::chat;
use crate::chat::{ChatActionView, DeferView, Key, KeyPress};
use crate::editor;
use crate::editor::Buffer;
use crate::laws::live;
use crate::laws::texts;
use crate::pieces;
use crate::pulse::FieldView;
use crate::ring;
use crate::session;
use crate::style;
use crate::text;

verus! {

broadcast use vstd::seq::group_seq_axioms;

// ---- the message ------------------------------------------------------------------------

/// A letter is put in at the cursor, which goes behind it; what stood before and
/// after stays.
pub proof fn letters_go_in_at_the_cursor(b: Buffer, c: char)
    requires
        0 <= b.at <= b.text.len(),
    ensures
        ({
            let r = editor::inserted(b, c);
            &&& r.text == b.text.take(b.at) + seq![c] + b.text.skip(b.at)
            &&& r.at == b.at + 1
        }),
{
    let r = editor::inserted(b, c);
    assert(r.text =~= b.text.take(b.at) + seq![c] + b.text.skip(b.at));
}

/// Backspace takes the letter before the cursor and Delete the one behind it;
/// where there is none, nothing happens.
pub proof fn deleting_takes_one_letter(b: Buffer)
    requires
        0 <= b.at <= b.text.len(),
    ensures
        b.at > 0 ==> editor::backspaced(b).text == b.text.take(b.at - 1) + b.text.skip(b.at)
            && editor::backspaced(b).at == b.at - 1,
        b.at == 0 ==> editor::backspaced(b) == b,
        b.at < b.text.len() ==> editor::deleted(b).text == b.text.take(b.at) + b.text.skip(
            b.at + 1,
        ) && editor::deleted(b).at == b.at,
        b.at == b.text.len() ==> editor::deleted(b) == b,
{
    if b.at > 0 {
        assert(editor::backspaced(b).text =~= b.text.take(b.at - 1) + b.text.skip(b.at));
    }
    if b.at < b.text.len() {
        assert(editor::deleted(b).text =~= b.text.take(b.at) + b.text.skip(b.at + 1));
    }
}

/// Home goes to the begin of the line that the cursor is in, End to its end: no
/// line feed lies between, and the text stays.
pub proof fn home_and_end_stay_in_the_line(b: Buffer, i: int)
    requires
        0 <= b.at <= b.text.len(),
    ensures
        ({
            let h = editor::moved_home(b);
            let e = editor::moved_end(b);
            &&& h.text == b.text && e.text == b.text
            &&& 0 <= h.at <= b.at <= e.at <= b.text.len()
            &&& h.at <= i < e.at ==> b.text[i] != '\n'
            &&& h.at > 0 ==> b.text[h.at - 1] == '\n'
            &&& e.at < b.text.len() ==> b.text[e.at] == '\n'
        }),
{
    starts(b.text, b.at);
    ends(b.text, b.at);
}

proof fn starts(s: Seq<char>, k: int)
    requires
        0 <= k <= s.len(),
    ensures
        0 <= editor::line_start(s, k) <= k,
        forall|i: int| editor::line_start(s, k) <= i < k ==> s[i] != '\n',
        editor::line_start(s, k) > 0 ==> s[editor::line_start(s, k) - 1] == '\n',
    decreases k,
{
    if k > 0 && s[k - 1] != '\n' {
        starts(s, k - 1);
    }
}

proof fn ends(s: Seq<char>, k: int)
    requires
        0 <= k <= s.len(),
    ensures
        k <= editor::line_end(s, k) <= s.len(),
        forall|i: int| k <= i < editor::line_end(s, k) ==> s[i] != '\n',
        editor::line_end(s, k) < s.len() ==> s[editor::line_end(s, k)] == '\n',
    decreases s.len() - k,
{
    if k < s.len() && s[k] != '\n' {
        ends(s, k + 1);
    }
}

/// Up goes to the line above, in the same column where that line is long enough
/// and to its end where it is not.
pub proof fn up_keeps_the_column(a: Seq<char>, l: Seq<char>, m: Seq<char>, col: int)
    requires
        a.len() == 0 || a.last() == '\n',
        texts::lacks(l, '\n'),
        texts::lacks(m, '\n'),
        0 <= col <= m.len(),
    ensures
        ({
            let t = a + l + seq!['\n'] + m;
            let b = Buffer { text: t, at: a.len() + l.len() + 1 + col };
            let r = editor::moved_up(b);
            &&& r.text == t
            &&& col <= l.len() ==> r.at == a.len() + col
            &&& col > l.len() ==> r.at == a.len() + l.len()
        }),
{
    let t = a + l + seq!['\n'] + m;
    let s: int = a.len() as int + l.len() + 1;
    line_starts_at(t, s, s + col);
    line_starts_at(t, a.len() as int, s - 1);
}

proof fn line_starts_at(t: Seq<char>, s: int, k: int)
    requires
        0 <= s <= k <= t.len(),
        s > 0 ==> t[s - 1] == '\n',
        forall|i: int| s <= i < k ==> t[i] != '\n',
    ensures
        editor::line_start(t, k) == s,
    decreases k - s,
{
    if k > s {
        line_starts_at(t, s, k - 1);
    }
}

proof fn line_ends_at(t: Seq<char>, k: int, e: int)
    requires
        0 <= k <= e <= t.len(),
        e < t.len() ==> t[e] == '\n',
        forall|i: int| k <= i < e ==> t[i] != '\n',
    ensures
        editor::line_end(t, k) == e,
    decreases e - k,
{
    if k < e {
        line_ends_at(t, k + 1, e);
    }
}

/// Down goes to the line below in the same way.
pub proof fn down_keeps_the_column(a: Seq<char>, l: Seq<char>, m: Seq<char>, z: Seq<char>, col: int)
    requires
        a.len() == 0 || a.last() == '\n',
        texts::lacks(l, '\n'),
        texts::lacks(m, '\n'),
        z.len() == 0 || z[0] == '\n',
        0 <= col <= l.len(),
    ensures
        ({
            let t = a + l + seq!['\n'] + m + z;
            let b = Buffer { text: t, at: a.len() + col };
            let r = editor::moved_down(b);
            &&& r.text == t
            &&& col <= m.len() ==> r.at == a.len() + l.len() + 1 + col
            &&& col > m.len() ==> r.at == a.len() + l.len() + 1 + m.len()
        }),
{
    let t = a + l + seq!['\n'] + m + z;
    let n: int = a.len() as int;
    let e: int = n + l.len();
    line_starts_at(t, n, n + col);
    line_ends_at(t, n + col, e);
    line_ends_at(t, e + 1, e + 1 + m.len());
}

/// A letter takes one to four bytes: one for ASCII.
pub proof fn letters_have_their_width(c: char)
    ensures
        (c as u32) < 0x80 ==> editor::width(c) == 1,
        0x80 <= (c as u32) < 0x800 ==> editor::width(c) == 2,
        0x800 <= (c as u32) < 0x10000 ==> editor::width(c) == 3,
        0x10000 <= (c as u32) ==> editor::width(c) == 4,
{
}

// ---- typing in the chat --------------------------------------------------------------------

pub open spec fn plain_key(k: Key) -> KeyPress {
    KeyPress { key: k, ctrl: false, alt_or_shift: false }
}

/// A state in which keys go to the message: no list is open, nothing is asked, and
/// no commands are offered.
pub open spec fn types_a_message(s: AppView) -> bool {
    s.overlay is None && s.pending is None && session::slash_choices(s).len() == 0
}

/// A letter that is typed goes into the message and does nothing else.
pub proof fn typed_letters_go_into_the_message(s: AppView, c: char, h: u16)
    requires
        types_a_message(s),
    ensures
        ({
            let b = session::message(s);
            let r = chat::key_taken(s, plain_key(Key::Char(c)), h);
            &&& r.0.input == b.text.insert(b.at, c)
            &&& r.1 == ChatActionView::Nothing
            &&& r.0.blocks == s.blocks && r.0.running == s.running && r.0.scroll == s.scroll
        }),
{
}

/// Enter sends the message without its white ends; a blank one is not sent.
pub proof fn enter_sends_the_message(s: AppView, h: u16)
    requires
        types_a_message(s),
    ensures
        pieces::is_blank(s.input) ==> chat::key_taken(s, plain_key(Key::Enter), h) == (
            s,
            ChatActionView::Nothing,
        ),
        !pieces::is_blank(s.input) ==> chat::key_taken(s, plain_key(Key::Enter), h) == (
            s,
            ChatActionView::Submit(pieces::trim(s.input)),
        ),
{
}

/// Enter with Alt or Shift, and Ctrl-J, begin a line in the message.
pub proof fn some_enters_begin_a_line(s: AppView, h: u16)
    requires
        types_a_message(s),
    ensures
        ({
            let b = session::message(s);
            let k = KeyPress { key: Key::Enter, ctrl: false, alt_or_shift: true };
            let r = chat::key_taken(s, k, h);
            r.0.input == b.text.insert(b.at, '\n') && r.1 == ChatActionView::Nothing
        }),
        ({
            let b = session::message(s);
            let r = chat::key_taken(s, chat::control('j'), h);
            r.0.input == b.text.insert(b.at, '\n') && r.1 == ChatActionView::Nothing
        }),
{
}

/// The keys with Ctrl that leave the message alone: what each of them asks for or
/// switches.
pub proof fn control_keys_do_their_work(s: AppView, h: u16)
    requires
        types_a_message(s),
    ensures
        s.running ==> chat::key_taken(s, chat::control('c'), h) == (s, ChatActionView::Cancel),
        !s.running ==> chat::key_taken(s, chat::control('c'), h) == (s, ChatActionView::Quit),
        chat::key_taken(s, chat::control('t'), h).0.show_thinking == !s.show_thinking,
        chat::key_taken(s, chat::control('r'), h).0.markdown == !s.markdown,
        chat::key_taken(s, chat::control('s'), h).0.select_mode == !s.select_mode,
        chat::key_taken(s, chat::control('s'), h).1 == ChatActionView::Mouse(s.select_mode),
        chat::key_taken(s, chat::control('w'), h).1 == ChatActionView::Defer(DeferView::Workspaces),
        chat::key_taken(s, chat::control('o'), h).1 == ChatActionView::Defer(DeferView::Threads),
        chat::key_taken(s, chat::control('p'), h).1 == ChatActionView::Defer(DeferView::Models),
        chat::key_taken(s, chat::control('f'), h).1 == ChatActionView::Defer(DeferView::Findings),
        chat::key_taken(s, chat::control('a'), h).1 == ChatActionView::Defer(DeferView::Approvals),
        chat::key_taken(s, chat::control('l'), h).1 == ChatActionView::Defer(DeferView::Files),
        chat::key_taken(s, chat::control('e'), h).1 == ChatActionView::Defer(DeferView::OpenFiles),
        chat::key_taken(s, chat::control('y'), h).1 is Copy,
{
}

/// What is copied is everything that is shown, in order, and what is being said at
/// its end.
pub proof fn everything_is_copied(b: Seq<BlockView>, x: BlockView, t: Seq<char>, agent: Seq<char>)
    ensures
        session::entries_text(Seq::empty()).len() == 0,
        session::entries_text(b.push(x)) == session::entries_text(b) + session::entry_text(x),
        session::entry_text(BlockView::User(t)) == "You: "@ + t + "\n"@,
        session::entry_text(BlockView::Assistant { agent, md: t }) == agent + ": "@ + t + "\n"@,
        session::entry_text(BlockView::Thinking(t)) == "[thinking] "@ + t + "\n"@,
        session::entry_text(BlockView::Rule(t)) == t + "\n"@,
{
    assert(b.push(x).drop_last() =~= b);
}

/// A called tool is copied by its name and what it was called with, and a line by
/// its text.
pub proof fn calls_and_lines_are_copied(
    name: Seq<char>,
    d: Seq<char>,
    st: blocks::ToolStatus,
    a: style::SpanView,
    b: style::SpanView,
)
    requires
        d.len() > 0,
    ensures
        session::entry_text(BlockView::Tool { name, detail: d, status: st }) == "⏺ "@ + name + "("@
            + d + ")\n"@,
        session::entry_text(BlockView::Tool { name, detail: Seq::empty(), status: st }) == "⏺ "@
            + name + "\n"@,
        session::entry_text(BlockView::Plain(seq![a, b])) == a.content + b.content + "\n"@,
{
    let l = seq![a, b];
    reveal_with_fuel(style::line_text, 3);
    assert(l.drop_last() =~= seq![a]);
    assert(seq![a].drop_last() =~= Seq::<style::SpanView>::empty());
    assert(Seq::<char>::empty() + a.content =~= a.content);
}

// ---- scrolling ----------------------------------------------------------------------------------

/// Scrolling up goes back by so many rows and holds the view there; scrolling down
/// goes on, and at the end the view follows again.
pub proof fn scrolling_goes_by_rows(s: AppView, n: u16)
    requires
        s.scroll <= s.max_scroll,
    ensures
        ({
            let r = session::scrolled(s, true, n);
            &&& r.pinned && !r.follow
            &&& s.scroll >= n ==> r.scroll == s.scroll - n
            &&& s.scroll < n ==> r.scroll == 0
            &&& r.blocks == s.blocks && r.input == s.input
        }),
        ({
            let r = session::scrolled(s, false, n);
            &&& s.scroll + n < s.max_scroll ==> r.scroll == s.scroll + n && r.pinned == s.pinned
                && r.follow == s.follow
            &&& s.scroll + n >= s.max_scroll ==> r.scroll == s.max_scroll && r.follow && !r.pinned
            &&& r.blocks == s.blocks && r.input == s.input
        }),
{
}

/// A view that follows shows the last rows; one that is held stays where it is, as
/// far as there are rows.
pub proof fn views_follow_or_stay(s: AppView, total: u16, height: u16)
    ensures
        ({
            let r = session::settled_scroll(s, total, height);
            &&& total >= height ==> r.max_scroll == total - height
            &&& total < height ==> r.max_scroll == 0
            &&& s.follow && !s.pinned ==> r.scroll == r.max_scroll
            &&& (s.pinned || !s.follow) && s.scroll <= r.max_scroll ==> r.scroll == s.scroll
            &&& (s.pinned || !s.follow) && s.scroll > r.max_scroll ==> r.scroll == r.max_scroll
        }),
{
}

/// The keys for pages scroll by the height of the view, the arrows by a row.
pub proof fn page_keys_scroll_by_pages(s: AppView, h: u16)
    requires
        types_a_message(s),
        h > 0,
    ensures
        chat::key_taken(s, plain_key(Key::PageUp), h) == (
            session::scrolled(s, true, h),
            ChatActionView::Nothing,
        ),
        chat::key_taken(s, plain_key(Key::PageDown), h) == (
            session::scrolled(s, false, h),
            ChatActionView::Nothing,
        ),
        s.input.len() == 0 && session::message(s).at == 0 ==> chat::key_taken(
            s,
            plain_key(Key::Up),
            h,
        ).0.scroll == session::scrolled(s, true, 1).scroll,
{
}

/// Escape lets a held view follow again, and otherwise asks for the threads.
pub proof fn escape_lets_the_view_follow(s: AppView, h: u16)
    requires
        types_a_message(s),
    ensures
        s.pinned ==> {
            let r = chat::key_taken(s, chat::escape(), h);
            !r.0.pinned && r.0.follow && r.0.scroll == s.max_scroll && r.1
                == ChatActionView::Nothing
        },
        !s.pinned ==> chat::key_taken(s, chat::escape(), h) == (
            s,
            ChatActionView::Defer(DeferView::Threads),
        ),
{
}

// ---- lists -------------------------------------------------------------------------------------------

/// The rows of a list that are shown are those whose label holds what was typed,
/// whatever its case; without a filter, all of them.
pub proof fn filters_keep_matching_rows(o: OverlayView, k: int)
    requires
        0 <= k < o.items.len(),
        o.items.len() <= usize::MAX,
    ensures
        blocks::visible_items(o).contains(k as usize) <==> o.filter.len() == 0 || text::contains(
            text::lowercase(o.items[k].label),
            text::lowercase(o.filter),
        ),
{
    kept(o, o.items.len() as int, k);
}

proof fn kept(o: OverlayView, n: int, k: int)
    requires
        0 <= n <= o.items.len(),
        0 <= k < o.items.len(),
        o.items.len() <= usize::MAX,
    ensures
        blocks::visible_among(o, n).contains(k as usize) <==> k < n && (o.filter.len() == 0
            || text::contains(text::lowercase(o.items[k].label), text::lowercase(o.filter))),
    decreases n,
{
    if n > 0 {
        kept(o, n - 1, k);
        let before = blocks::visible_among(o, n - 1);
        let all = blocks::visible_among(o, n);
        if blocks::keeps(o, n - 1) {
            if before.contains(k as usize) {
                let m = choose|m: int| 0 <= m < before.len() && before[m] == k as usize;
                assert(all[m] == k as usize);
            }
            if k == n - 1 {
                assert(all[before.len() as int] == k as usize);
            }
            if all.contains(k as usize) {
                let m = choose|m: int| 0 <= m < all.len() && all[m] == k as usize;
                if m < before.len() {
                    assert(before[m] == k as usize);
                }
            }
        }
    }
}

/// The arrows move the cursor of a list by one row, round its ends.
pub proof fn arrows_move_by_one_row(at: int, n: int)
    requires
        0 <= at < n,
    ensures
        at > 0 ==> ring::stepped(at, n, true) == at - 1,
        at == 0 ==> ring::stepped(at, n, true) == n - 1,
        at < n - 1 ==> ring::stepped(at, n, false) == at + 1,
        at == n - 1 ==> ring::stepped(at, n, false) == 0,
{
    vstd::arithmetic::div_mod::lemma_small_mod(at as nat, n as nat);
    if at > 0 {
        vstd::arithmetic::div_mod::lemma_mod_add_multiples_vanish(at - 1, n);
        vstd::arithmetic::div_mod::lemma_small_mod((at - 1) as nat, n as nat);
        assert((at + n - 1) % n == at - 1);
    } else {
        vstd::arithmetic::div_mod::lemma_small_mod((n - 1) as nat, n as nat);
    }
    if at < n - 1 {
        vstd::arithmetic::div_mod::lemma_small_mod((at + 1) as nat, n as nat);
    } else {
        vstd::arithmetic::div_mod::lemma_mod_self_0(n);
    }
}

/// Enter takes the row under the cursor: a workspace is bound, a thread is opened.
pub proof fn enter_takes_the_row(s: AppView, o: OverlayView, h: u16, id: Seq<char>, k: usize)
    requires
        s.overlay == Some(o),
        o.sel < blocks::visible_items(o).len(),
        blocks::visible_items(o)[o.sel as int] == k,
        k < o.items.len(),
        o.items[k as int].action == Some(id),
    ensures
        o.kind == OverlayKind::Workspaces ==> chat::key_taken(s, plain_key(Key::Enter), h).1
            == ChatActionView::Defer(DeferView::BindWorkspace(id)),
        o.kind == OverlayKind::Threads ==> chat::key_taken(s, plain_key(Key::Enter), h).1
            == ChatActionView::Defer(DeferView::SwitchThread(id)),
{
}

/// Enter on a model chooses it, says so, and closes the list.
pub proof fn enter_chooses_the_model(s: AppView, o: OverlayView, h: u16, id: Seq<char>, k: usize)
    requires
        s.overlay == Some(o),
        o.kind == OverlayKind::Models,
        o.sel < blocks::visible_items(o).len(),
        blocks::visible_items(o)[o.sel as int] == k,
        k < o.items.len(),
        o.items[k as int].action == Some(id),
        s.stream is None,
    ensures
        ({
            let r = chat::key_taken(s, plain_key(Key::Enter), h);
            let m = chat::chosen_model(id);
            &&& r.1 == ChatActionView::SetModel(m)
            &&& r.0.current_model == m
            &&& r.0.overlay is None
            &&& r.0.blocks.len() == s.blocks.len() + 1
        }),
{
}

/// Enter on a row of a list that is only read opens it, and again closes it.
pub proof fn enter_opens_and_closes_a_row(o: OverlayView)
    requires
        o.kind != OverlayKind::Threads && o.kind != OverlayKind::Workspaces && o.kind
            != OverlayKind::Models,
    ensures
        ({
            let r = session::overlay_entered(o);
            &&& r.0.detail_open == !o.detail_open
            &&& r.0.dscroll == 0
            &&& r.1 is None
            &&& r.0.items == o.items && r.0.sel == o.sel
        }),
{
}

/// What is typed in a list that can be searched is searched for, from its first
/// row; Backspace takes a letter back.
pub proof fn typing_searches_the_list(s: AppView, o: OverlayView, c: char, h: u16)
    requires
        s.overlay == Some(o),
        o.kind == OverlayKind::Threads || o.kind == OverlayKind::Workspaces || o.kind
            == OverlayKind::Models,
    ensures
        chat::key_taken(s, plain_key(Key::Char(c)), h).0.overlay == Some(
            OverlayView { filter: o.filter.push(c), sel: 0, ..o },
        ),
        o.filter.len() > 0 ==> chat::key_taken(s, plain_key(Key::Backspace), h).0.overlay == Some(
            OverlayView { filter: o.filter.drop_last(), sel: 0, ..o },
        ),
        chat::key_taken(s, plain_key(Key::Char(c)), h).0.input == s.input,
{
}

/// Escape leaves a list: from the threads to the workspaces, from the workspaces
/// out of the session, and from any other list, or an open row, one step back.
pub proof fn escape_leaves_the_list(s: AppView, o: OverlayView, h: u16)
    requires
        s.overlay == Some(o),
    ensures
        o.detail_open ==> chat::key_taken(s, chat::escape(), h).0.overlay == Some(
            OverlayView { detail_open: false, ..o },
        ),
        !o.detail_open && o.kind == OverlayKind::Threads ==> chat::key_taken(s, chat::escape(), h)
            == (s, ChatActionView::Defer(DeferView::Workspaces)),
        !o.detail_open && o.kind == OverlayKind::Workspaces ==> chat::key_taken(
            s,
            chat::escape(),
            h,
        ) == (s, ChatActionView::Quit),
        !o.detail_open && o.kind != OverlayKind::Threads && o.kind != OverlayKind::Workspaces
            ==> chat::key_taken(s, chat::escape(), h).0.overlay is None,
{
}

// ---- commands ---------------------------------------------------------------------------------------

/// Commands are offered while the message is a slash and the begin of a name: all
/// commands that begin so, whatever the case, up to fifty.
pub proof fn commands_are_offered(
    c: Seq<SlashView>,
    prefix: Seq<char>,
    n: int,
    k: int,
)
    requires
        0 <= k < n <= c.len() <= usize::MAX,
        n <= 50,
    ensures
        session::offered(c, prefix, n).contains(k as usize) <==> text::starts_with(
            text::lowercase(c[k].name),
            text::lowercase(prefix),
        ),
        session::offered(c, prefix, n).len() <= n,
    decreases n,
{
    let all = session::offered(c, prefix, n);
    let before = session::offered(c, prefix, n - 1);
    below(c, prefix, n - 1);
    if k < n - 1 {
        commands_are_offered(c, prefix, n - 1, k);
        if before.contains(k as usize) {
            let m = choose|m: int| 0 <= m < before.len() && before[m] == k as usize;
            assert(all[m] == k as usize);
        }
        if all.contains(k as usize) {
            let m = choose|m: int| 0 <= m < all.len() && all[m] == k as usize;
            if m < before.len() {
                assert(before[m] == k as usize);
            }
        }
    } else {
        if text::starts_with(text::lowercase(c[k].name), text::lowercase(prefix)) {
            assert(all[before.len() as int] == k as usize);
        }
        if all.contains(k as usize) {
            let m = choose|m: int| 0 <= m < all.len() && all[m] == k as usize;
            if m < before.len() {
                assert(before[m] < n - 1);
            }
        }
    }
}

proof fn below(c: Seq<SlashView>, prefix: Seq<char>, n: int)
    requires
        n <= c.len() <= usize::MAX,
    ensures
        session::offered(c, prefix, n).len() <= if n > 0 {
            n
        } else {
            0
        },
        forall|m: int|
            0 <= m < session::offered(c, prefix, n).len() ==> (#[trigger] session::offered(
                c,
                prefix,
                n,
            )[m]) < n,
    decreases n,
{
    if n > 0 {
        below(c, prefix, n - 1);
    }
}

/// The message asks for commands where it is a slash and one word.
pub proof fn a_slash_asks_for_commands(w: Seq<char>, t: Seq<char>)
    requires
        texts::lacks(w, ' '),
    ensures
        session::slash_prefix(seq!['/'] + w) == Some(w),
        session::slash_prefix(seq!['/'] + w + seq![' '] + t) is None,
        t.len() == 0 || t[0] != '/' ==> session::slash_prefix(t) is None,
{
    reveal_strlit("/");
    reveal_strlit(" ");
    assert("/"@ =~= seq!['/'] && " "@ =~= seq![' ']);
    texts::stripping_undoes_prefixing("/"@, w, t);
    texts::lacking_texts_have_no_part(w, " "@, 0);
    let r = w + seq![' '] + t;
    texts::stripping_undoes_prefixing("/"@, r, t);
    assert(seq!['/'] + w + seq![' '] + t =~= "/"@ + r);
    texts::wholes_hold_their_parts(w, " "@, t);
    if t.len() > 0 {
        assert(t.take(1)[0] == t[0]);
    }
}

/// Tab or Enter takes the offered command: the message becomes a slash, its name
/// and a blank.
pub proof fn offered_commands_are_taken(s: AppView, h: u16, k: int)
    requires
        s.overlay is None,
        s.pending is None,
        session::slash_choices(s).len() > 0,
        session::slash_choice(s) == Some(k),
    ensures
        ({
            let r = chat::key_taken(s, plain_key(Key::Tab), h);
            r.0.input == seq!['/'] + s.slash_commands[k].name + seq![' '] && r.1
                == ChatActionView::Nothing && r.0.slash_sel == 0
        }),
        chat::key_taken(s, plain_key(Key::Enter), h).0.input == seq!['/']
            + s.slash_commands[k].name + seq![' '],
{
    reveal_strlit("/");
    reveal_strlit(" ");
    assert("/"@ =~= seq!['/'] && " "@ =~= seq![' ']);
}

/// A message that is sent is shown as the user's, and the session waits for the
/// run.
pub proof fn sent_messages_start_a_run(s: AppView, t: Seq<char>, now: u64)
    requires
        s.stream is None,
    ensures
        ({
            let r = chat::message_sent(s, t, now);
            &&& r.running
            &&& r.status == "sending…"@
            &&& r.blocks == s.blocks.push(BlockView::User(t))
            &&& r.run_started == Some(now)
        }),
{
}

/// A model is chosen by its number; nought stands for the default.
pub proof fn models_are_chosen_by_number(id: Seq<char>, n: int)
    ensures
        crate::digits::parse_i64(id) == Some(n) && n != 0 && i64::MIN <= n <= i64::MAX
            ==> chat::chosen_model(id) == Some(n as i64),
        crate::digits::parse_i64(id) == Some(0int) ==> chat::chosen_model(id) is None,
        crate::digits::parse_i64(id) is None ==> chat::chosen_model(id) is None,
{
}

// ---- moving about ---------------------------------------------------------------------------

/// The message and where the cursor stands in it, counted in letters.
pub open spec fn stands(s: AppView, t: Seq<char>, k: int) -> bool {
    s.input == t && s.input_cursor == editor::offset(t, k) as usize
}

/// Left and right move the cursor by a letter and backspace takes the letter before
/// it, in a message and in a form; the text stays, and at an end nothing moves.
pub proof fn arrows_move_the_cursor(s: AppView, h: u16)
    requires
        s.overlay is None,
        s.pending is Some || types_a_message(s),
    ensures
        ({
            let b = session::message(s);
            let left = chat::key_taken(s, plain_key(Key::Left), h).0;
            let right = chat::key_taken(s, plain_key(Key::Right), h).0;
            let back = chat::key_taken(s, plain_key(Key::Backspace), h).0;
            &&& b.at > 0 ==> stands(left, b.text, b.at - 1)
            &&& b.at == 0 ==> stands(left, b.text, 0)
            &&& b.at < b.text.len() ==> stands(right, b.text, b.at + 1)
            &&& b.at == b.text.len() ==> stands(right, b.text, b.at)
            &&& b.at > 0 ==> stands(back, b.text.remove(b.at - 1), b.at - 1)
            &&& b.at == 0 ==> stands(back, b.text, 0)
            &&& left.blocks == s.blocks && right.blocks == s.blocks && back.blocks == s.blocks
        }),
        chat::key_taken(s, plain_key(Key::Left), h).1 == ChatActionView::Nothing,
        chat::key_taken(s, plain_key(Key::Right), h).1 == ChatActionView::Nothing,
        chat::key_taken(s, plain_key(Key::Backspace), h).1 == ChatActionView::Nothing,
{
}

/// Home and end go to the ends of the line, in a message and in a form.
pub proof fn home_and_end_go_to_the_ends(s: AppView, h: u16)
    requires
        s.overlay is None,
        s.pending is Some || types_a_message(s),
    ensures
        ({
            let b = session::message(s);
            let home = chat::key_taken(s, plain_key(Key::Home), h).0;
            let end = chat::key_taken(s, plain_key(Key::End), h).0;
            &&& stands(home, b.text, editor::line_start(b.text, b.at))
            &&& stands(end, b.text, editor::line_end(b.text, b.at))
        }),
{
}

/// Delete takes the letter behind the cursor; up and down move between the lines of
/// the message, and scroll by a row where there is no further line.
pub proof fn lines_come_before_scrolling(s: AppView, h: u16)
    requires
        types_a_message(s),
    ensures
        ({
            let b = session::message(s);
            let up = chat::key_taken(s, plain_key(Key::Up), h).0;
            let down = chat::key_taken(s, plain_key(Key::Down), h).0;
            let del = chat::key_taken(s, plain_key(Key::Delete), h).0;
            &&& b.at < b.text.len() ==> stands(del, b.text.remove(b.at), b.at)
            &&& editor::line_start(b.text, b.at) > 0 ==> stands(
                up,
                b.text,
                editor::moved_up(b).at,
            )
            &&& editor::line_start(b.text, b.at) == 0 ==> up.input == s.input && up.scroll == (
            if s.scroll > 0 {
                s.scroll - 1
            } else {
                0
            }) && up.pinned
            &&& editor::line_end(b.text, b.at) < b.text.len() ==> stands(
                down,
                b.text,
                editor::moved_down(b).at,
            )
            &&& editor::line_end(b.text, b.at) == b.text.len() ==> down.input == s.input
                && down.scroll == (if s.scroll + 1 <= s.max_scroll {
                s.scroll + 1
            } else {
                s.max_scroll as int
            })
        }),
{
    let b = session::message(s);
    assert(editor::moved_up(b).text == b.text);
    assert(editor::moved_down(b).text == b.text);
}

/// In a form a letter goes into the answer, escape quits, and a letter with Ctrl
/// does nothing.
pub proof fn forms_take_letters(s: AppView, c: char, h: u16)
    requires
        s.overlay is None,
        s.pending is Some,
    ensures
        ({
            let b = session::message(s);
            let r = chat::key_taken(s, plain_key(Key::Char(c)), h);
            r.0.input == b.text.insert(b.at, c) && r.1 == ChatActionView::Nothing
        }),
        chat::key_taken(s, plain_key(Key::Esc), h) == (s, ChatActionView::Quit),
        chat::key_taken(s, KeyPress { key: Key::Char(c), ctrl: true, alt_or_shift: false }, h) == (
            s,
            ChatActionView::Nothing,
        ),
{
}

/// Enter takes the answer without its white ends; the last answer sends them all,
/// and the next one begins afresh.
pub proof fn enter_answers_the_field(s: AppView, p: PendingView, f: FieldView, h: u16)
    requires
        s.overlay is None,
        s.stream is None,
        s.pending == Some(p),
        p.idx < p.fields.len(),
        f == p.fields[p.idx as int],
        f.ftype != "number"@ && f.ftype != "checkbox"@,
        forall|i: int| 0 <= i < p.answers.len() ==> (#[trigger] p.answers[i]).0 != f.key,
    ensures
        ({
            let r = chat::key_taken(s, plain_key(Key::Enter), h);
            let all = p.answers.push((f.key, AnswerView::Text(pieces::trim(s.input))));
            &&& r.0.input.len() == 0 && r.0.input_cursor == 0
            &&& p.idx + 1 == p.fields.len() ==> r.1 == (ChatActionView::Respond {
                id: p.id,
                answers: all,
            }) && r.0.pending is None && r.0.running
            &&& p.idx + 1 < p.fields.len() ==> r.1 == ChatActionView::Nothing && (
            r.0.pending matches Some(q) && q.idx == (p.idx + 1) as usize && q.answers == all && q.fields
                == p.fields)
        }),
{
    let t = AppView { input: Seq::empty(), input_cursor: 0, ..s };
    let a = pieces::trim(s.input);
    live::answers_fill_the_form(t, p, a, f);
}

/// The rows of a wrapped message follow each other: each begins where the one
/// before ended, or behind the line feed there, and they end with the message. A
/// row that no line feed ends is full.
pub proof fn rows_follow_each_other(s: Seq<char>, tw: int, r: int)
    requires
        1 <= tw,
        0 <= r < editor::visual_rows(s, tw).len(),
    ensures
        ({
            let v = editor::visual_rows(s, tw);
            &&& v[0].0 == 0
            &&& v[v.len() - 1].1 == s.len()
            &&& r + 1 < v.len() ==> (v[r + 1].0 == v[r].1 && v[r].1 - v[r].0 == tw) || (v[r + 1].0
                == v[r].1 + 1 && s[v[r].1] == '\n')
        }),
{
    rows_so_far(s, tw, s.len() as int);
    let w = editor::wrapped(s, tw, s.len() as int);
    let v = editor::visual_rows(s, tw);
    if w.rows.len() > 0 {
        assert(v[0] == w.rows[0]);
    }
    if r + 1 < v.len() {
        assert(v[r] == w.rows[r]);
        if r + 1 < w.rows.len() {
            assert(v[r + 1] == w.rows[r + 1]);
        }
    }
}

spec fn follows(s: Seq<char>, tw: int, a: (int, int), next: int) -> bool {
    (next == a.1 && a.1 - a.0 == tw) || (next == a.1 + 1 && s[a.1] == '\n')
}

proof fn rows_so_far(s: Seq<char>, tw: int, n: int)
    requires
        1 <= tw,
        0 <= n <= s.len(),
    ensures
        ({
            let w = editor::wrapped(s, tw, n);
            &&& w.count == n - w.start
            &&& w.rows.len() == 0 ==> w.start == 0
            &&& w.rows.len() > 0 ==> w.rows[0].0 == 0 && follows(s, tw, w.rows.last(), w.start)
            &&& forall|r: int|
                0 <= r && r + 1 < w.rows.len() ==> follows(s, tw, #[trigger] w.rows[r], w.rows[r + 1].0)
        }),
    decreases n,
{
    if n > 0 {
        rows_so_far(s, tw, n - 1);
        let u = editor::wrapped(s, tw, n - 1);
        let w = editor::wrapped(s, tw, n);
        if w.rows.len() > u.rows.len() {
            assert forall|r: int| 0 <= r && r + 1 < w.rows.len() implies follows(
                s,
                tw,
                #[trigger] w.rows[r],
                w.rows[r + 1].0,
            ) by {
                assert(w.rows[r] == u.rows[r]);
                if r + 1 < u.rows.len() {
                    assert(w.rows[r + 1] == u.rows[r + 1]);
                }
            }
        }
    }
}

/// The row of a place is the last that begins at it or before it.
pub proof fn places_are_in_their_row(rows: Seq<(int, int)>, k: int)
    requires
        rows.len() > 0,
        rows[0].0 <= k,
    ensures
        0 <= editor::row_of(rows, k) < rows.len(),
        rows[editor::row_of(rows, k)].0 <= k,
        forall|r: int| editor::row_of(rows, k) < r < rows.len() ==> (#[trigger] rows[r]).0 > k,
    decreases rows.len(),
{
    if rows.last().0 > k {
        assert(rows.len() > 1);
        places_are_in_their_row(rows.drop_last(), k);
        assert forall|r: int| editor::row_of(rows, k) < r < rows.len() implies (
        #[trigger] rows[r]).0 > k by {
            if r < rows.len() - 1 {
                assert(rows.drop_last()[r] == rows[r]);
            }
        }
    }
}

} // verus!
