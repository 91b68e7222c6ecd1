//! A multi-line text under edit, with a cursor that counts bytes.
//!
//! The cursor stands on a character boundary. The contracts speak of the
//! number of characters before it.

use vstd::prelude::*;
use crate::text;

verus! {

broadcast use {vstd::seq::group_seq_axioms, vstd::string::group_string_axioms};

// ---- bytes and characters ------------------------------------------------------

/// Bytes of a character in UTF-8.
pub open spec fn width(c: char) -> nat {
    let u = c as u32;
    if u < 0x80 {
        1
    } else if u < 0x800 {
        2
    } else if u < 0x10000 {
        3
    } else {
        4
    }
}

/// Bytes before character `k`.
pub open spec fn offset(s: Seq<char>, k: int) -> nat
    decreases k,
{
    if k <= 0 {
        0
    } else {
        offset(s, k - 1) + width(s[k - 1])
    }
}

/// The cursor stands before character `k`.
pub open spec fn cursor_at(s: Seq<char>, cursor: nat, k: int) -> bool {
    0 <= k <= s.len() && offset(s, k) == cursor
}

/// The cursor stands on a character boundary.
pub open spec fn on_boundary(s: Seq<char>, cursor: nat) -> bool {
    exists|k: int| cursor_at(s, cursor, k)
}

/// The number of characters before the cursor.
pub open spec fn position(s: Seq<char>, cursor: nat) -> int {
    choose|k: int| cursor_at(s, cursor, k)
}

proof fn offset_grows(s: Seq<char>, i: int, j: int)
    requires
        0 <= i < j,
    ensures
        offset(s, i) < offset(s, j),
    decreases j,
{
    if i < j - 1 {
        offset_grows(s, i, j - 1);
    }
}

/// At most one number of characters stands for a cursor.
pub proof fn position_is_unique(s: Seq<char>, cursor: nat, k: int)
    requires
        cursor_at(s, cursor, k),
    ensures
        on_boundary(s, cursor),
        position(s, cursor) == k,
{
    let p = position(s, cursor);
    assert(cursor_at(s, cursor, k));
    assert(cursor_at(s, cursor, p));
    if p < k {
        offset_grows(s, p, k);
    } else if k < p {
        offset_grows(s, k, p);
    }
}

proof fn offset_of_prefix(s: Seq<char>, t: Seq<char>, k: int)
    requires
        0 <= k <= s.len(),
        k <= t.len(),
        forall|i: int| 0 <= i < k ==> s[i] == t[i],
    ensures
        offset(s, k) == offset(t, k),
    decreases k,
{
    if k > 0 {
        offset_of_prefix(s, t, k - 1);
    }
}

proof fn width_is_encoded_len(c: char)
    ensures
        vstd::utf8::encode_scalar(c as u32).len() == width(c),
{
    broadcast use vstd::utf8::char_is_scalar;

}

proof fn byte_len_push(s: Seq<char>, c: char)
    ensures
        text::byte_len(s.push(c)) == text::byte_len(s) + width(c),
    decreases s.len(),
{
    width_is_encoded_len(c);
    reveal_with_fuel(vstd::utf8::encode_utf8, 2);
    if s.len() == 0 {
        assert(s.push(c).drop_first() =~= Seq::empty());
    } else {
        byte_len_push(s.drop_first(), c);
        assert(s.push(c).drop_first() =~= s.drop_first().push(c));
    }
}

/// All the bytes of a text stand before its end.
pub proof fn offset_of_end(s: Seq<char>)
    ensures
        offset(s, s.len() as int) == text::byte_len(s),
    decreases s.len(),
{
    reveal_with_fuel(vstd::utf8::encode_utf8, 1);
    if s.len() > 0 {
        let t = s.drop_last();
        offset_of_end(t);
        byte_len_push(t, s.last());
        assert(t.push(s.last()) =~= s);
        offset_of_prefix(s, t, t.len() as int);
    }
}

/// The characters of the first `n` bytes.
pub open spec fn head_bytes(s: Seq<char>, n: nat) -> Seq<char> {
    s.take(position(s, n))
}

/// The characters after the first `n` bytes.
pub open spec fn tail_bytes(s: Seq<char>, n: nat) -> Seq<char> {
    s.skip(position(s, n))
}

// ---- the buffer and its operations ----------------------------------------------

/// A text and the number of characters before the cursor.
pub struct Buffer {
    pub text: Seq<char>,
    pub at: int,
}

/// The buffer of a text with a cursor that counts bytes.
pub open spec fn buffer(s: Seq<char>, cursor: nat) -> Buffer {
    Buffer { text: s, at: position(s, cursor) }
}

pub open spec fn inserted(b: Buffer, c: char) -> Buffer {
    Buffer { text: b.text.insert(b.at, c), at: b.at + 1 }
}

/// Without the character before the cursor.
pub open spec fn backspaced(b: Buffer) -> Buffer {
    if b.at == 0 {
        b
    } else {
        Buffer { text: b.text.remove(b.at - 1), at: b.at - 1 }
    }
}

/// Without the character at the cursor.
pub open spec fn deleted(b: Buffer) -> Buffer {
    if b.at >= b.text.len() {
        b
    } else {
        Buffer { text: b.text.remove(b.at), at: b.at }
    }
}

pub open spec fn moved_left(b: Buffer) -> Buffer {
    if b.at == 0 {
        b
    } else {
        Buffer { at: b.at - 1, ..b }
    }
}

pub open spec fn moved_right(b: Buffer) -> Buffer {
    if b.at >= b.text.len() {
        b
    } else {
        Buffer { at: b.at + 1, ..b }
    }
}

/// Where the line begins that position `k` stands on.
pub open spec fn line_start(s: Seq<char>, k: int) -> int
    decreases k,
{
    if k <= 0 || k > s.len() || s[k - 1] == '\n' {
        k
    } else {
        line_start(s, k - 1)
    }
}

/// Where the line ends that position `k` stands on.
pub open spec fn line_end(s: Seq<char>, k: int) -> int
    decreases s.len() - k,
{
    if k < 0 || k >= s.len() || s[k] == '\n' {
        k
    } else {
        line_end(s, k + 1)
    }
}

pub open spec fn moved_home(b: Buffer) -> Buffer {
    Buffer { at: line_start(b.text, b.at), ..b }
}

pub open spec fn moved_end(b: Buffer) -> Buffer {
    Buffer { at: line_end(b.text, b.at), ..b }
}

/// The position in column `col` of a line, or the line's end where it is
/// shorter.
pub open spec fn in_column(start: int, end: int, col: int) -> int {
    if start + col < end {
        start + col
    } else {
        end
    }
}

/// There is a line above.
pub open spec fn can_move_up(b: Buffer) -> bool {
    line_start(b.text, b.at) > 0
}

/// On the line above, in the same column where it is long enough.
pub open spec fn moved_up(b: Buffer) -> Buffer {
    let ls = line_start(b.text, b.at);
    if ls == 0 {
        b
    } else {
        Buffer { at: in_column(line_start(b.text, ls - 1), ls - 1, b.at - ls), ..b }
    }
}

/// There is a line below.
pub open spec fn can_move_down(b: Buffer) -> bool {
    line_end(b.text, b.at) < b.text.len()
}

/// On the line below, in the same column where it is long enough.
pub open spec fn moved_down(b: Buffer) -> Buffer {
    let le = line_end(b.text, b.at);
    if le >= b.text.len() {
        b
    } else {
        Buffer {
            at: in_column(le + 1, line_end(b.text, le + 1), b.at - line_start(b.text, b.at)),
            ..b
        }
    }
}

proof fn line_bounds(s: Seq<char>, k: int)
    requires
        0 <= k <= s.len(),
    ensures
        0 <= line_start(s, k) <= k,
        k <= line_end(s, k) <= s.len(),
    decreases s.len(),
{
    line_start_bound(s, k);
    line_end_bound(s, k);
}

proof fn line_start_bound(s: Seq<char>, k: int)
    requires
        0 <= k <= s.len(),
    ensures
        0 <= line_start(s, k) <= k,
    decreases k,
{
    if k > 0 && s[k - 1] != '\n' {
        line_start_bound(s, k - 1);
    }
}

proof fn line_end_bound(s: Seq<char>, k: int)
    requires
        0 <= k <= s.len(),
    ensures
        k <= line_end(s, k) <= s.len(),
    decreases s.len() - k,
{
    if k < s.len() && s[k] != '\n' {
        line_end_bound(s, k + 1);
    }
}

fn char_width(c: char) -> (r: usize)
    ensures
        r == width(c),
{
    let u = c as u32;
    if u < 0x80 {
        1
    } else if u < 0x800 {
        2
    } else if u < 0x10000 {
        3
    } else {
        4
    }
}

/// The number of characters before the cursor.
pub fn chars_before(v: &[char], cursor: usize) -> (k: usize)
    requires
        on_boundary(v@, cursor as nat),
    ensures
        k == position(v@, cursor as nat),
        cursor_at(v@, cursor as nat, k as int),
{
    let ghost p = position(v@, cursor as nat);
    let mut b: usize = 0;
    let mut k: usize = 0;
    assert(cursor_at(v@, cursor as nat, p));
    while b != cursor
        invariant
            k <= p <= v@.len(),
            offset(v@, p) == cursor,
            b == offset(v@, k as int),
        ensures
            b == cursor,
        decreases p - k,
    {
        proof {
            if k < p && k + 1 < p {
                offset_grows(v@, k as int + 1, p);
            }
        }
        b = b + char_width(v[k]);
        k = k + 1;
    }
    proof {
        if k < p {
            offset_grows(v@, k as int, p);
        }
        position_is_unique(v@, cursor as nat, k as int);
    }
    k
}

/// The bytes before character `k` of `s`, whose characters are `v`.
pub fn bytes_before(s: &str, v: &[char], k: usize) -> (b: usize)
    requires
        v@ == s@,
        k <= v@.len(),
    ensures
        b == offset(v@, k as int),
        cursor_at(v@, b as nat, k as int),
        position(v@, b as nat) == k,
        on_boundary(v@, b as nat),
{
    let total = text::str_byte_len(s);
    let mut b: usize = 0;
    let mut i: usize = 0;
    proof {
        offset_of_end(s@);
    }
    while i < k
        invariant
            i <= k <= v@.len(),
            offset(v@, v@.len() as int) == total,
            b == offset(v@, i as int),
        decreases k - i,
    {
        proof {
            if i + 1 < v@.len() {
                offset_grows(v@, i as int + 1, v@.len() as int);
            }
        }
        b = b + char_width(v[i]);
        i = i + 1;
    }
    proof {
        position_is_unique(v@, b as nat, k as int);
    }
    b
}

/// The text of the first `n` bytes.
pub fn str_head_bytes(s: &str, n: usize) -> (r: String)
    requires
        on_boundary(s@, n as nat),
    ensures
        r@ == head_bytes(s@, n as nat),
{
    let v = text::chars_of(s);
    let k = chars_before(&v, n);
    assert(v@.subrange(0, k as int) =~= v@.take(k as int));
    text::string_range(&v, 0, k)
}

/// The text after the first `n` bytes.
pub fn str_tail_bytes(s: &str, n: usize) -> (r: String)
    requires
        on_boundary(s@, n as nat),
    ensures
        r@ == tail_bytes(s@, n as nat),
{
    let v = text::chars_of(s);
    let k = chars_before(&v, n);
    assert(v@.subrange(k as int, v@.len() as int) =~= v@.skip(k as int));
    text::string_range(&v, k, v.len())
}

/// The text can be cut after `n` bytes: they end on a character boundary, or
/// the text is not longer.
pub open spec fn can_cut(s: Seq<char>, n: nat) -> bool {
    text::byte_len(s) <= n || on_boundary(s, n)
}

/// The first `n` bytes of a text, all of it where it is not longer.
pub open spec fn cut(s: Seq<char>, n: nat) -> Seq<char> {
    if text::byte_len(s) <= n {
        s
    } else {
        head_bytes(s, n)
    }
}

/// The first `n` bytes of a text, all of it where it is not longer.
pub fn str_cut(s: &str, n: usize) -> (r: String)
    requires
        can_cut(s@, n as nat),
    ensures
        r@ == cut(s@, n as nat),
{
    if text::str_byte_len(s) <= n {
        s.to_owned()
    } else {
        str_head_bytes(s, n)
    }
}

/// Every text of ASCII characters can be cut anywhere, and the bytes are then
/// the characters.
pub proof fn ascii_can_be_cut(s: Seq<char>, n: nat)
    requires
        vstd::utf8::is_ascii_chars(s),
    ensures
        can_cut(s, n),
        cut(s, n) == text::prefix(s, n),
{
    offset_of_end(s);
    ascii_offset(s, s.len() as int);
    if n < s.len() {
        ascii_offset(s, n as int);
        position_is_unique(s, n, n as int);
    }
}

proof fn ascii_offset(s: Seq<char>, k: int)
    requires
        vstd::utf8::is_ascii_chars(s),
        0 <= k <= s.len(),
    ensures
        offset(s, k) == k,
    decreases k,
{
    if k > 0 {
        ascii_offset(s, k - 1);
        assert(s[k - 1] as u32 <= 127);
    }
}

fn find_line_start(v: &[char], k: usize) -> (r: usize)
    requires
        k <= v@.len(),
    ensures
        r == line_start(v@, k as int),
        r <= k,
{
    let mut i: usize = k;
    while i > 0 && v[i - 1] != '\n'
        invariant
            i <= k <= v@.len(),
            line_start(v@, k as int) == line_start(v@, i as int),
        decreases i,
    {
        i -= 1;
    }
    i
}

fn find_line_end(v: &[char], k: usize) -> (r: usize)
    requires
        k <= v@.len(),
    ensures
        r == line_end(v@, k as int),
        k <= r <= v@.len(),
{
    let mut i: usize = k;
    while i < v.len() && v[i] != '\n'
        invariant
            k <= i <= v@.len(),
            line_end(v@, k as int) == line_end(v@, i as int),
        decreases v@.len() - i,
    {
        i += 1;
    }
    i
}

/// Sets text and cursor to `v` with `k` characters before the cursor.
fn store(s: &mut String, cursor: &mut usize, v: &Vec<char>, k: usize)
    requires
        k <= v@.len(),
    ensures
        final(s)@ == v@,
        on_boundary(final(s)@, *final(cursor) as nat),
        position(final(s)@, *final(cursor) as nat) == k,
{
    let t = text::string_of(v);
    *cursor = bytes_before(&t, v, k);
    *s = t;
}

pub fn insert_char(s: &mut String, cursor: &mut usize, c: char)
    requires
        on_boundary(old(s)@, *old(cursor) as nat),
    ensures
        on_boundary(final(s)@, *final(cursor) as nat),
        buffer(final(s)@, *final(cursor) as nat) == inserted(buffer(old(s)@, *old(cursor) as nat), c),
{
    let mut v = text::chars_of(s);
    let k = chars_before(&v, *cursor);
    v.insert(k, c);
    let n: usize = v.len();
    assert(k < n);
    store(s, cursor, &v, k + 1);
}

pub fn backspace(s: &mut String, cursor: &mut usize)
    requires
        on_boundary(old(s)@, *old(cursor) as nat),
    ensures
        on_boundary(final(s)@, *final(cursor) as nat),
        buffer(final(s)@, *final(cursor) as nat) == backspaced(buffer(old(s)@, *old(cursor) as nat)),
{
    let mut v = text::chars_of(s);
    let k = chars_before(&v, *cursor);
    if k > 0 {
        let _ = v.remove(k - 1);
        store(s, cursor, &v, k - 1);
    }
}

pub fn delete(s: &mut String, cursor: &mut usize)
    requires
        on_boundary(old(s)@, *old(cursor) as nat),
    ensures
        on_boundary(final(s)@, *final(cursor) as nat),
        buffer(final(s)@, *final(cursor) as nat) == deleted(buffer(old(s)@, *old(cursor) as nat)),
{
    let mut v = text::chars_of(s);
    let k = chars_before(&v, *cursor);
    if k < v.len() {
        let _ = v.remove(k);
        store(s, cursor, &v, k);
    }
}

/// The cursor one character to the left.
pub fn left(s: &str, cursor: usize) -> (r: usize)
    requires
        on_boundary(s@, cursor as nat),
    ensures
        on_boundary(s@, r as nat),
        buffer(s@, r as nat) == moved_left(buffer(s@, cursor as nat)),
{
    let v = text::chars_of(s);
    let k = chars_before(&v, cursor);
    if k > 0 {
        bytes_before(s, &v, k - 1)
    } else {
        cursor
    }
}

/// The cursor one character to the right.
pub fn right(s: &str, cursor: usize) -> (r: usize)
    requires
        on_boundary(s@, cursor as nat),
    ensures
        on_boundary(s@, r as nat),
        buffer(s@, r as nat) == moved_right(buffer(s@, cursor as nat)),
{
    let v = text::chars_of(s);
    let k = chars_before(&v, cursor);
    if k < v.len() {
        bytes_before(s, &v, k + 1)
    } else {
        cursor
    }
}

/// The cursor at the start of its line.
pub fn home(s: &str, cursor: usize) -> (r: usize)
    requires
        on_boundary(s@, cursor as nat),
    ensures
        on_boundary(s@, r as nat),
        buffer(s@, r as nat) == moved_home(buffer(s@, cursor as nat)),
{
    let v = text::chars_of(s);
    let k = chars_before(&v, cursor);
    let i = find_line_start(&v, k);
    bytes_before(s, &v, i)
}

/// The cursor at the end of its line.
pub fn end(s: &str, cursor: usize) -> (r: usize)
    requires
        on_boundary(s@, cursor as nat),
    ensures
        on_boundary(s@, r as nat),
        buffer(s@, r as nat) == moved_end(buffer(s@, cursor as nat)),
{
    let v = text::chars_of(s);
    let k = chars_before(&v, cursor);
    let i = find_line_end(&v, k);
    bytes_before(s, &v, i)
}

/// The cursor on the line above, where there is one.
pub fn up(s: &str, cursor: usize) -> (r: Option<usize>)
    requires
        on_boundary(s@, cursor as nat),
    ensures
        r is Some <==> can_move_up(buffer(s@, cursor as nat)),
        r matches Some(c) ==> on_boundary(s@, c as nat) && buffer(s@, c as nat) == moved_up(
            buffer(s@, cursor as nat),
        ),
{
    let v = text::chars_of(s);
    let k = chars_before(&v, cursor);
    let ls = find_line_start(&v, k);
    if ls == 0 {
        return None;
    }
    let col: usize = k - ls;
    let prev = find_line_start(&v, ls - 1);
    let i: usize = if col < ls - 1 - prev {
        prev + col
    } else {
        ls - 1
    };
    Some(bytes_before(s, &v, i))
}

/// The cursor on the line below, where there is one.
pub fn down(s: &str, cursor: usize) -> (r: Option<usize>)
    requires
        on_boundary(s@, cursor as nat),
    ensures
        r is Some <==> can_move_down(buffer(s@, cursor as nat)),
        r matches Some(c) ==> on_boundary(s@, c as nat) && buffer(s@, c as nat) == moved_down(
            buffer(s@, cursor as nat),
        ),
{
    let v = text::chars_of(s);
    let n: usize = v.len();
    let k = chars_before(&v, cursor);
    let le = find_line_end(&v, k);
    if le == n {
        return None;
    }
    let ls = find_line_start(&v, k);
    let col: usize = k - ls;
    let next: usize = le + 1;
    let next_end = find_line_end(&v, next);
    let i: usize = if col < next_end - next {
        next + col
    } else {
        next_end
    };
    Some(bytes_before(s, &v, i))
}

// ---- visual rows -----------------------------------------------------------------

/// The rows that are complete after the first `n` characters, where the
/// current one begins, and how many characters it has.
pub struct Wrapped {
    pub rows: Seq<(int, int)>,
    pub start: int,
    pub count: int,
}

/// Hard wrapping of the first `n` characters into rows of at most `tw`
/// characters; a line feed ends a row too.
pub open spec fn wrapped(s: Seq<char>, tw: int, n: int) -> Wrapped
    decreases n,
{
    if n <= 0 {
        Wrapped { rows: Seq::empty(), start: 0, count: 0 }
    } else {
        let w = wrapped(s, tw, n - 1);
        if s[n - 1] == '\n' {
            Wrapped { rows: w.rows.push((w.start, n - 1)), start: n, count: 0 }
        } else if w.count == tw {
            Wrapped { rows: w.rows.push((w.start, n - 1)), start: n - 1, count: 1 }
        } else {
            Wrapped { count: w.count + 1, ..w }
        }
    }
}

/// The visual rows of a text: where each begins and ends, in characters.
pub open spec fn visual_rows(s: Seq<char>, tw: int) -> Seq<(int, int)> {
    let w = wrapped(s, tw, s.len() as int);
    w.rows.push((w.start, s.len() as int))
}

/// The last row that begins at or before position `k`.
pub open spec fn row_of(rows: Seq<(int, int)>, k: int) -> int
    decreases rows.len(),
{
    if rows.len() == 0 {
        0
    } else if rows.last().0 <= k {
        rows.len() - 1
    } else {
        row_of(rows.drop_last(), k)
    }
}

proof fn wrapped_invariant(s: Seq<char>, tw: int, n: int)
    requires
        1 <= tw,
        0 <= n <= s.len(),
    ensures
        ({
            let w = wrapped(s, tw, n);
            &&& 0 <= w.start <= n
            &&& w.count == n - w.start
            &&& w.count <= tw
            &&& w.rows.len() == 0 ==> w.start == 0
            &&& w.rows.len() > 0 ==> w.rows[0].0 == 0
            &&& forall|i: int| w.start <= i < n ==> s[i] != '\n'
            &&& forall|r: int|
                0 <= r < w.rows.len() ==> 0 <= (#[trigger] w.rows[r]).0 <= w.rows[r].1 <= n && w.rows[r].1
                    - w.rows[r].0 <= tw && forall|i: int|
                    w.rows[r].0 <= i < w.rows[r].1 ==> s[i] != '\n'
        }),
    decreases n,
{
    if n > 0 {
        wrapped_invariant(s, tw, n - 1);
    }
}

/// Every visual row has at most `tw` characters and holds no line feed.
pub proof fn rows_fit_the_width(s: Seq<char>, tw: int, r: int)
    requires
        1 <= tw,
        0 <= r < visual_rows(s, tw).len(),
    ensures
        ({
            let row = visual_rows(s, tw)[r];
            &&& 0 <= row.0 <= row.1 <= s.len()
            &&& row.1 - row.0 <= tw
            &&& forall|i: int| row.0 <= i < row.1 ==> s[i] != '\n'
        }),
{
    wrapped_invariant(s, tw, s.len() as int);
    let w = wrapped(s, tw, s.len() as int);
    if r < w.rows.len() {
        assert(visual_rows(s, tw)[r] == w.rows[r]);
    }
}

/// The first row begins where the text begins.
proof fn first_row_starts_at_zero(s: Seq<char>, tw: int)
    requires
        1 <= tw,
    ensures
        visual_rows(s, tw).len() > 0,
        visual_rows(s, tw)[0].0 == 0,
{
    wrapped_invariant(s, tw, s.len() as int);
}

proof fn row_of_bounds(rows: Seq<(int, int)>, k: int)
    requires
        rows.len() > 0,
        rows[0].0 <= k,
    ensures
        0 <= row_of(rows, k) < rows.len(),
        rows[row_of(rows, k)].0 <= k,
    decreases rows.len(),
{
    if rows.last().0 > k {
        row_of_bounds(rows.drop_last(), k);
    }
}

spec fn int_pairs(v: Seq<(usize, usize)>) -> Seq<(int, int)> {
    v.map_values(|p: (usize, usize)| (p.0 as int, p.1 as int))
}

fn wrap_chars(v: &[char], tw: usize) -> (r: Vec<(usize, usize)>)
    requires
        tw >= 1,
    ensures
        int_pairs(r@) == visual_rows(v@, tw as int),
{
    let mut rows: Vec<(usize, usize)> = Vec::new();
    let mut start: usize = 0;
    let mut count: usize = 0;
    let mut n: usize = 0;
    assert(int_pairs(rows@) =~= Seq::empty());
    while n < v.len()
        invariant
            n <= v@.len(),
            tw >= 1,
            int_pairs(rows@) == wrapped(v@, tw as int, n as int).rows,
            start == wrapped(v@, tw as int, n as int).start,
            count == wrapped(v@, tw as int, n as int).count,
            count <= n,
        decreases v@.len() - n,
    {
        let ghost before = rows@;
        if v[n] == '\n' {
            rows.push((start, n));
            assert(int_pairs(rows@) =~= int_pairs(before).push((start as int, n as int)));
            start = n + 1;
            count = 0;
        } else if count == tw {
            rows.push((start, n));
            assert(int_pairs(rows@) =~= int_pairs(before).push((start as int, n as int)));
            start = n;
            count = 1;
        } else {
            count += 1;
        }
        n += 1;
    }
    let ghost before = rows@;
    rows.push((start, v.len()));
    assert(int_pairs(rows@) =~= int_pairs(before).push((start as int, v@.len() as int)));
    rows
}

/// The visual rows of a text at width `tw` by their bytes, and the row and
/// column of the cursor.
pub fn wrap(s: &str, cursor: usize, tw: usize) -> (r: (Vec<(usize, usize)>, u16, u16))
    requires
        tw >= 1,
        on_boundary(s@, cursor as nat),
    ensures
        r.0@.len() == visual_rows(s@, tw as int).len(),
        forall|i: int|
            0 <= i < r.0@.len() ==> (#[trigger] r.0@[i]).0 == offset(s@, visual_rows(s@, tw as int)[i].0)
                && r.0@[i].1 == offset(s@, visual_rows(s@, tw as int)[i].1),
        ({
            let k = position(s@, cursor as nat);
            let row = row_of(visual_rows(s@, tw as int), k);
            r.1 == row as u16 && r.2 == (k - visual_rows(s@, tw as int)[row].0) as u16
        }),
{
    let v = text::chars_of(s);
    let k = chars_before(&v, cursor);
    let rows = wrap_chars(&v, tw);
    let ghost want = visual_rows(s@, tw as int);
    proof {
        first_row_starts_at_zero(s@, tw as int);
        row_of_bounds(want, k as int);
        assert(int_pairs(rows@).len() == rows@.len());
    }
    let mut out: Vec<(usize, usize)> = Vec::new();
    let mut i: usize = 0;
    while i < rows.len()
        invariant
            i <= rows@.len(),
            tw >= 1,
            v@ == s@,
            want == visual_rows(s@, tw as int),
            want == int_pairs(rows@),
            rows@.len() == want.len(),
            out@.len() == i,
            forall|j: int|
                0 <= j < i ==> (#[trigger] out@[j]).0 == offset(s@, want[j].0) && out@[j].1 == offset(
                    s@,
                    want[j].1,
                ),
        decreases rows@.len() - i,
    {
        proof {
            rows_fit_the_width(s@, tw as int, i as int);
            assert(want[i as int] == (rows@[i as int].0 as int, rows@[i as int].1 as int));
        }
        let a = bytes_before(s, &v, rows[i].0);
        let b = bytes_before(s, &v, rows[i].1);
        out.push((a, b));
        i += 1;
    }
    let mut n: usize = rows.len();
    assert(want.take(n as int) =~= want);
    while n > 1 && rows[n - 1].0 > k
        invariant
            1 <= n <= rows@.len(),
            want == int_pairs(rows@),
            rows@.len() == want.len(),
            row_of(want, k as int) == row_of(want.take(n as int), k as int),
        decreases n,
    {
        assert(want.take(n as int).last() == want[n - 1]);
        assert(want[n - 1] == (rows@[n - 1].0 as int, rows@[n - 1].1 as int));
        assert(want.take(n as int).drop_last() =~= want.take(n - 1));
        n -= 1;
    }
    proof {
        assert(want.take(n as int).last() == want[n - 1]);
        assert(want[n - 1] == (rows@[n - 1].0 as int, rows@[n - 1].1 as int));
        assert(row_of(want, k as int) == n - 1);
    }
    let row: usize = n - 1;
    let col: usize = k - rows[row].0;
    (out, row as u16, col as u16)
}

/// How many visual rows a text takes at width `tw`.
pub fn row_count(s: &str, tw: usize) -> (r: usize)
    requires
        tw >= 1,
    ensures
        r == visual_rows(s@, tw as int).len(),
{
    let v = text::chars_of(s);
    let rows = wrap_chars(&v, tw);
    assert(int_pairs(rows@).len() == rows@.len());
    rows.len()
}

/// No character has more bytes before it than the whole text.
pub proof fn offsets_stay_in(s: Seq<char>, k: int)
    requires
        0 <= k <= s.len(),
    ensures
        offset(s, k) <= offset(s, s.len() as int),
{
    if k < s.len() {
        offset_grows(s, k, s.len() as int);
    }
}

/// An insertion adds the bytes of its character.
pub proof fn insertion_grows(b: Buffer, c: char)
    requires
        0 <= b.at <= b.text.len(),
    ensures
        offset(inserted(b, c).text, (b.text.len() + 1) as int) == offset(b.text, b.text.len() as int)
            + width(c),
{
    insertion_shifts(b, c, b.text.len() as int);
}

proof fn insertion_shifts(b: Buffer, c: char, k: int)
    requires
        0 <= b.at <= k <= b.text.len(),
    ensures
        offset(inserted(b, c).text, k + 1) == offset(b.text, k) + width(c),
    decreases k,
{
    let t = inserted(b, c).text;
    if b.at < k {
        insertion_shifts(b, c, k - 1);
        assert(t[k] == b.text[k - 1]);
    } else {
        offset_of_prefix(t, b.text.take(k), k);
        offset_of_prefix(b.text, b.text.take(k), k);
        assert(t[k] == c);
    }
}

// ---- laws ------------------------------------------------------------------------

/// Backspace takes back an insertion.
pub proof fn backspace_undoes_insert(b: Buffer, c: char)
    requires
        0 <= b.at <= b.text.len(),
    ensures
        backspaced(inserted(b, c)) == b,
{
    assert(b.text.insert(b.at, c).remove(b.at) =~= b.text);
}

/// Moving left and right again comes back to the same place.
pub proof fn right_undoes_left(b: Buffer)
    requires
        0 < b.at <= b.text.len(),
    ensures
        moved_right(moved_left(b)) == b,
{
}

/// No movement leaves the text or changes it.
pub proof fn movements_stay_in_the_text(b: Buffer)
    requires
        0 <= b.at <= b.text.len(),
    ensures
        moved_left(b).text == b.text && 0 <= moved_left(b).at <= b.text.len(),
        moved_right(b).text == b.text && 0 <= moved_right(b).at <= b.text.len(),
        moved_home(b).text == b.text && 0 <= moved_home(b).at <= b.at,
        moved_end(b).text == b.text && b.at <= moved_end(b).at <= b.text.len(),
        moved_up(b).text == b.text && 0 <= moved_up(b).at <= b.text.len(),
        moved_down(b).text == b.text && 0 <= moved_down(b).at <= b.text.len(),
{
    line_bounds(b.text, b.at);
    let ls = line_start(b.text, b.at);
    if ls > 0 {
        line_bounds(b.text, ls - 1);
    }
    let le = line_end(b.text, b.at);
    if le < b.text.len() {
        line_bounds(b.text, le + 1);
    }
}

} // verus!
