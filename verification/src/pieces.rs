//! Trimming, splitting, joining and replacing.

use vstd::prelude::*;
use crate::text;

verus! {

broadcast use {vstd::seq::group_seq_axioms, text::views_push, text::views_empty};

// ---- trimming ----------------------------------------------------------------

/// `s` without its leading white space.
pub open spec fn trim_start(s: Seq<char>) -> Seq<char>
    decreases s.len(),
{
    if s.len() > 0 && text::is_white(s[0]) {
        trim_start(s.skip(1))
    } else {
        s
    }
}

/// `s` without its trailing white space.
pub open spec fn trim_end(s: Seq<char>) -> Seq<char>
    decreases s.len(),
{
    if s.len() > 0 && text::is_white(s.last()) {
        trim_end(s.drop_last())
    } else {
        s
    }
}

/// `s` without leading and trailing white space.
pub open spec fn trim(s: Seq<char>) -> Seq<char> {
    trim_end(trim_start(s))
}

/// `s` is empty or holds white space only.
pub open spec fn is_blank(s: Seq<char>) -> bool {
    trim(s).len() == 0
}

/// A text is blank exactly where each of its characters is white space.
pub proof fn blank_is_all_white(s: Seq<char>)
    ensures
        is_blank(s) <==> forall|i: int| 0 <= i < s.len() ==> text::is_white(#[trigger] s[i]),
{
    trim_start_suffix(s);
    let t = trim_start(s);
    trim_end_prefix(t);
    if forall|i: int| 0 <= i < s.len() ==> text::is_white(#[trigger] s[i]) {
        if t.len() > 0 {
            assert(t[0] == s[s.len() - t.len()]);
        }
    } else {
        if trim_end(t).len() == 0 && t.len() > 0 {
            assert(text::is_white(t[0]));
            assert(false);
        }
    }
}

/// `trim_start` takes white space only, up to the first other character.
proof fn trim_start_suffix(s: Seq<char>)
    ensures
        trim_start(s).len() <= s.len(),
        trim_start(s) == s.skip(s.len() - trim_start(s).len()),
        forall|i: int| 0 <= i < s.len() - trim_start(s).len() ==> text::is_white(#[trigger] s[i]),
        trim_start(s).len() > 0 ==> !text::is_white(trim_start(s)[0]),
    decreases s.len(),
{
    if s.len() > 0 && text::is_white(s[0]) {
        trim_start_suffix(s.skip(1));
        let t = trim_start(s.skip(1));
        assert(s.skip(1).skip(s.skip(1).len() - t.len()) =~= s.skip(s.len() - t.len()));
        assert forall|i: int| 0 <= i < s.len() - t.len() implies text::is_white(#[trigger] s[i]) by {
            if i > 0 {
                assert(s.skip(1)[i - 1] == s[i]);
            }
        }
    } else {
        assert(s.skip(0) =~= s);
    }
}

/// `trim_end` takes white space only, from the end to the last other character.
proof fn trim_end_prefix(s: Seq<char>)
    ensures
        trim_end(s).len() <= s.len(),
        trim_end(s) == s.take(trim_end(s).len() as int),
        forall|i: int| trim_end(s).len() <= i < s.len() ==> text::is_white(#[trigger] s[i]),
        trim_end(s).len() > 0 ==> !text::is_white(trim_end(s).last()),
    decreases s.len(),
{
    if s.len() > 0 && text::is_white(s.last()) {
        trim_end_prefix(s.drop_last());
        let t = trim_end(s.drop_last());
        assert(s.drop_last().take(t.len() as int) =~= s.take(t.len() as int));
        assert forall|i: int| t.len() <= i < s.len() implies text::is_white(#[trigger] s[i]) by {
            if i < s.len() - 1 {
                assert(s.drop_last()[i] == s[i]);
            }
        }
    } else {
        assert(s.take(s.len() as int) =~= s);
    }
}

/// Where the white space at the start of `v` ends.
fn white_prefix(v: &[char]) -> (i: usize)
    ensures
        i <= v@.len(),
        trim_start(v@) == v@.skip(i as int),
{
    let mut i: usize = 0;
    assert(v@.skip(0) =~= v@);
    while i < v.len() && text::char_is_white(v[i])
        invariant
            i <= v@.len(),
            trim_start(v@) == trim_start(v@.skip(i as int)),
        decreases v@.len() - i,
    {
        assert(v@.skip(i as int)[0] == v@[i as int]);
        assert(v@.skip(i as int).skip(1) =~= v@.skip(i as int + 1));
        i += 1;
    }
    if i < v.len() {
        assert(v@.skip(i as int)[0] == v@[i as int]);
    }
    i
}

/// Where the white space at the end of `v[from..]` begins.
fn white_suffix(v: &[char], from: usize) -> (j: usize)
    requires
        from <= v@.len(),
    ensures
        from <= j <= v@.len(),
        trim_end(v@.skip(from as int)) == v@.subrange(from as int, j as int),
{
    let mut j: usize = v.len();
    assert(v@.skip(from as int) =~= v@.subrange(from as int, j as int));
    while j > from && text::char_is_white(v[j - 1])
        invariant
            from <= j <= v@.len(),
            trim_end(v@.skip(from as int)) == trim_end(v@.subrange(from as int, j as int)),
        decreases j,
    {
        let ghost w = v@.subrange(from as int, j as int);
        assert(w.last() == v@[j - 1]);
        assert(w.drop_last() =~= v@.subrange(from as int, j - 1));
        j -= 1;
    }
    if j > from {
        assert(v@.subrange(from as int, j as int).last() == v@[j - 1]);
    }
    j
}

/// `s` without leading and trailing white space.
pub fn str_trim(s: &str) -> (r: String)
    ensures
        r@ == trim(s@),
{
    let v = text::chars_of(s);
    let i = white_prefix(&v);
    let j = white_suffix(&v, i);
    text::string_range(&v, i, j)
}

/// `s` without leading white space.
pub fn str_trim_start(s: &str) -> (r: String)
    ensures
        r@ == trim_start(s@),
{
    let v = text::chars_of(s);
    let i = white_prefix(&v);
    assert(v@.subrange(i as int, v@.len() as int) =~= v@.skip(i as int));
    text::string_range(&v, i, v.len())
}

/// `s` without trailing white space.
pub fn str_trim_end(s: &str) -> (r: String)
    ensures
        r@ == trim_end(s@),
{
    let v = text::chars_of(s);
    assert(v@.skip(0) =~= v@);
    let j = white_suffix(&v, 0);
    text::string_range(&v, 0, j)
}

/// Whether `s` is empty or holds white space only.
pub fn str_is_blank(s: &str) -> (r: bool)
    ensures
        r == is_blank(s@),
{
    let t = str_trim(s);
    text::char_count(&t) == 0
}

/// `s` without its leading characters `c`.
pub open spec fn trim_start_char(s: Seq<char>, c: char) -> Seq<char>
    decreases s.len(),
{
    if s.len() > 0 && s[0] == c {
        trim_start_char(s.skip(1), c)
    } else {
        s
    }
}

/// `s` without its trailing characters `c`.
pub open spec fn trim_end_char(s: Seq<char>, c: char) -> Seq<char>
    decreases s.len(),
{
    if s.len() > 0 && s.last() == c {
        trim_end_char(s.drop_last(), c)
    } else {
        s
    }
}

/// `s` without its leading and trailing characters `c`.
pub open spec fn trim_char(s: Seq<char>, c: char) -> Seq<char> {
    trim_end_char(trim_start_char(s, c), c)
}

fn char_prefix(v: &[char], c: char) -> (i: usize)
    ensures
        i <= v@.len(),
        trim_start_char(v@, c) == v@.skip(i as int),
{
    let mut i: usize = 0;
    assert(v@.skip(0) =~= v@);
    while i < v.len() && v[i] == c
        invariant
            i <= v@.len(),
            trim_start_char(v@, c) == trim_start_char(v@.skip(i as int), c),
        decreases v@.len() - i,
    {
        assert(v@.skip(i as int)[0] == v@[i as int]);
        assert(v@.skip(i as int).skip(1) =~= v@.skip(i as int + 1));
        i += 1;
    }
    if i < v.len() {
        assert(v@.skip(i as int)[0] == v@[i as int]);
    }
    i
}

fn char_suffix(v: &[char], from: usize, c: char) -> (j: usize)
    requires
        from <= v@.len(),
    ensures
        from <= j <= v@.len(),
        trim_end_char(v@.skip(from as int), c) == v@.subrange(from as int, j as int),
{
    let mut j: usize = v.len();
    assert(v@.skip(from as int) =~= v@.subrange(from as int, j as int));
    while j > from && v[j - 1] == c
        invariant
            from <= j <= v@.len(),
            trim_end_char(v@.skip(from as int), c) == trim_end_char(v@.subrange(from as int, j as int), c),
        decreases j,
    {
        let ghost w = v@.subrange(from as int, j as int);
        assert(w.last() == v@[j - 1]);
        assert(w.drop_last() =~= v@.subrange(from as int, j - 1));
        j -= 1;
    }
    if j > from {
        assert(v@.subrange(from as int, j as int).last() == v@[j - 1]);
    }
    j
}

/// `s` without its leading characters `c`.
pub fn str_trim_start_char(s: &str, c: char) -> (r: String)
    ensures
        r@ == trim_start_char(s@, c),
{
    let v = text::chars_of(s);
    let i = char_prefix(&v, c);
    assert(v@.subrange(i as int, v@.len() as int) =~= v@.skip(i as int));
    text::string_range(&v, i, v.len())
}

/// `s` without its trailing characters `c`.
pub fn str_trim_end_char(s: &str, c: char) -> (r: String)
    ensures
        r@ == trim_end_char(s@, c),
{
    let v = text::chars_of(s);
    assert(v@.skip(0) =~= v@);
    let j = char_suffix(&v, 0, c);
    text::string_range(&v, 0, j)
}

/// `s` without its leading and trailing characters `c`.
pub fn str_trim_char(s: &str, c: char) -> (r: String)
    ensures
        r@ == trim_char(s@, c),
{
    let v = text::chars_of(s);
    let i = char_prefix(&v, c);
    let j = char_suffix(&v, i, c);
    text::string_range(&v, i, j)
}

/// `s` without the copies of `p` that it begins with.
pub open spec fn trim_start_str(s: Seq<char>, p: Seq<char>) -> Seq<char>
    decreases s.len(),
{
    if p.len() > 0 && text::starts_with(s, p) {
        trim_start_str(s.skip(p.len() as int), p)
    } else {
        s
    }
}

/// `s` without the copies of `p` that it begins with.
pub fn str_trim_start_str(s: &str, p: &str) -> (r: String)
    ensures
        r@ == trim_start_str(s@, p@),
{
    let v = text::chars_of(s);
    let q = text::chars_of(p);
    if q.len() == 0 {
        return s.to_owned();
    }
    let n: usize = v.len();
    let mut i: usize = 0;
    assert(v@.skip(0) =~= v@);
    while text::chars_occur_at(&v, &q, i)
        invariant
            n == v@.len(),
            i <= n,
            q@ == p@,
            q@.len() > 0,
            trim_start_str(v@, q@) == trim_start_str(v@.skip(i as int), q@),
        ensures
            !text::occurs_at(v@, q@, i as int),
        decreases v@.len() - i,
    {
        assert(v@.skip(i as int).subrange(0, q@.len() as int) =~= v@.subrange(i as int, i + q@.len()));
        assert(v@.skip(i as int).skip(q@.len() as int) =~= v@.skip(i + q@.len()));
        i += q.len();
    }
    proof {
        if text::starts_with(v@.skip(i as int), q@) {
            assert(v@.skip(i as int).subrange(0, q@.len() as int) =~= v@.subrange(i as int, i + q@.len()));
        }
        assert(v@.subrange(i as int, v@.len() as int) =~= v@.skip(i as int));
    }
    text::string_range(&v, i, v.len())
}

// ---- splitting ---------------------------------------------------------------

/// The first position at or after `from` that holds `c`.
pub open spec fn index_from(s: Seq<char>, c: char, from: int) -> Option<int>
    decreases s.len() - from,
{
    if from >= s.len() {
        None
    } else if s[from] == c {
        Some(from)
    } else {
        index_from(s, c, from + 1)
    }
}

/// The first position that holds `c`.
pub open spec fn index_of(s: Seq<char>, c: char) -> Option<int> {
    index_from(s, c, 0)
}

/// The last position that holds `c`.
pub open spec fn last_index_of(s: Seq<char>, c: char) -> Option<int>
    decreases s.len(),
{
    if s.len() == 0 {
        None
    } else if s.last() == c {
        Some(s.len() - 1)
    } else {
        last_index_of(s.drop_last(), c)
    }
}

pub proof fn index_from_bounds(s: Seq<char>, c: char, from: int)
    requires
        0 <= from,
    ensures
        index_from(s, c, from) matches Some(k) ==> from <= k < s.len() && s[k] == c && forall|j: int|
            from <= j < k ==> s[j] != c,
        index_from(s, c, from) is None ==> forall|j: int| from <= j < s.len() ==> s[j] != c,
    decreases s.len() - from,
{
    if from < s.len() && s[from] != c {
        index_from_bounds(s, c, from + 1);
    }
}

/// The first position at or after `from` that holds `c`.
pub fn chars_index_from(v: &[char], c: char, from: usize) -> (r: Option<usize>)
    ensures
        text::to_int(r) == index_from(v@, c, from as int),
        r matches Some(k) ==> from <= k < v@.len() && v@[k as int] == c,
{
    let mut i: usize = from;
    while i < v.len()
        invariant
            from <= i,
            index_from(v@, c, from as int) == index_from(v@, c, i as int),
        decreases v@.len() - i,
    {
        if v[i] == c {
            return Some(i);
        }
        i += 1;
    }
    None
}

/// The last position that holds `c`.
pub fn chars_last_index(v: &[char], c: char) -> (r: Option<usize>)
    ensures
        text::to_int(r) == last_index_of(v@, c),
        r matches Some(k) ==> k < v@.len() && v@[k as int] == c,
{
    let mut j: usize = v.len();
    assert(v@.take(j as int) =~= v@);
    while j > 0
        invariant
            j <= v@.len(),
            last_index_of(v@, c) == last_index_of(v@.take(j as int), c),
        decreases j,
    {
        assert(v@.take(j as int).last() == v@[j - 1]);
        assert(v@.take(j as int).drop_last() =~= v@.take(j - 1));
        if v[j - 1] == c {
            return Some(j - 1);
        }
        j -= 1;
    }
    None
}

/// The pieces of `s` between the characters `c`; one more than there are `c`.
pub open spec fn split_char(s: Seq<char>, c: char) -> Seq<Seq<char>>
    decreases s.len(),
{
    match index_of(s, c) {
        Some(k) if 0 <= k < s.len() => seq![s.take(k)] + split_char(s.skip(k + 1), c),
        _ => seq![s],
    }
}

/// A text has at least one piece.
pub proof fn split_char_is_not_empty(s: Seq<char>, c: char)
    ensures
        split_char(s, c).len() > 0,
{
}

proof fn index_of_skip(s: Seq<char>, c: char, a: int, b: int)
    requires
        0 <= a <= s.len(),
        0 <= b,
    ensures
        match index_from(s, c, a + b) {
            Some(k) => index_from(s.skip(a), c, b) == Some(k - a),
            None => index_from(s.skip(a), c, b) is None,
        },
    decreases s.len() - a - b,
{
    if a + b < s.len() {
        assert(s.skip(a)[b] == s[a + b]);
        if s[a + b] != c {
            index_of_skip(s, c, a, b + 1);
        }
    }
}

/// The pieces of `s` between the characters `c`.
pub fn str_split_char(s: &str, c: char) -> (r: Vec<String>)
    ensures
        text::views(r@) == split_char(s@, c),
{
    let v = text::chars_of(s);
    let mut out: Vec<String> = Vec::new();
    let mut i: usize = 0;
    assert(v@.skip(0) =~= v@);
    proof {
        assert(text::views(out@) + split_char(v@, c) =~= split_char(v@, c));
    }
    loop
        invariant
            i <= v@.len(),
            text::views(out@) + split_char(v@.skip(i as int), c) == split_char(v@, c),
            v@ == s@,
        decreases v@.len() - i,
    {
        let n: usize = v.len();
        let ghost rest = v@.skip(i as int);
        proof {
            index_of_skip(v@, c, i as int, 0);
        }
        match chars_index_from(&v, c, i) {
            Some(k) => {
                let piece = text::string_range(&v, i, k);
                let ghost before = text::views(out@);
                out.push(piece);
                proof {
                    assert(piece@ =~= rest.take(k - i));
                    assert(rest.skip(k - i + 1) =~= v@.skip(k + 1));
                    assert(before.push(piece@) + split_char(v@.skip(k + 1), c) =~= before + (seq![piece@]
                        + split_char(v@.skip(k + 1), c)));
                }
                i = k + 1;
            },
            None => {
                let piece = text::string_range(&v, i, v.len());
                let ghost before = text::views(out@);
                out.push(piece);
                proof {
                    assert(piece@ =~= rest);
                    assert(before.push(piece@) =~= before + seq![piece@]);
                }
                return out;
            },
        }
    }
}

/// The pieces of `s` between the copies of `p`, which is not empty.
pub open spec fn split_str(s: Seq<char>, p: Seq<char>) -> Seq<Seq<char>>
    decreases s.len(),
{
    match text::find(s, p) {
        Some(k) if p.len() > 0 && 0 <= k <= s.len() - p.len() => seq![s.take(k)] + split_str(
            s.skip(k + p.len()),
            p,
        ),
        _ => seq![s],
    }
}

proof fn find_skip(s: Seq<char>, p: Seq<char>, a: int, b: int)
    requires
        0 <= a <= s.len(),
        0 <= b,
    ensures
        match text::find_from(s, p, a + b) {
            Some(k) => text::find_from(s.skip(a), p, b) == Some(k - a),
            None => text::find_from(s.skip(a), p, b) is None,
        },
    decreases s.len() + 1 - a - b,
{
    if a + b + p.len() <= s.len() {
        assert(s.skip(a).subrange(b, b + p.len()) =~= s.subrange(a + b, a + b + p.len()));
        if !text::occurs_at(s, p, a + b) {
            find_skip(s, p, a, b + 1);
        }
    }
}

/// The pieces of `s` between the copies of `p`.
pub fn str_split_str(s: &str, p: &str) -> (r: Vec<String>)
    requires
        p@.len() > 0,
    ensures
        text::views(r@) == split_str(s@, p@),
{
    let v = text::chars_of(s);
    let q = text::chars_of(p);
    let mut out: Vec<String> = Vec::new();
    let mut i: usize = 0;
    assert(v@.skip(0) =~= v@);
    proof {
        assert(text::views(out@) + split_str(v@, q@) =~= split_str(v@, q@));
    }
    loop
        invariant
            i <= v@.len(),
            q@.len() > 0,
            q@ == p@,
            v@ == s@,
            text::views(out@) + split_str(v@.skip(i as int), q@) == split_str(v@, q@),
        decreases v@.len() - i,
    {
        let ghost rest = v@.skip(i as int);
        proof {
            find_skip(v@, q@, i as int, 0);
        }
        match text::chars_find_from(&v, &q, i) {
            Some(k) => {
                let piece = text::string_range(&v, i, k);
                let ghost before = text::views(out@);
                out.push(piece);
                let n: usize = v.len();
                let m: usize = q.len();
                proof {
                    assert(piece@ =~= rest.take(k - i));
                    assert(rest.skip(k - i + q@.len()) =~= v@.skip(k + q@.len()));
                    assert(before.push(piece@) + split_str(v@.skip(k + q@.len()), q@) =~= before + (
                    seq![piece@] + split_str(v@.skip(k + q@.len()), q@)));
                }
                i = k + m;
            },
            None => {
                let piece = text::string_range(&v, i, v.len());
                let ghost before = text::views(out@);
                out.push(piece);
                proof {
                    assert(piece@ =~= rest);
                    assert(before.push(piece@) =~= before + seq![piece@]);
                }
                return out;
            },
        }
    }
}

/// A line without the carriage return that ends it.
pub open spec fn chomp(s: Seq<char>) -> Seq<char> {
    if s.len() > 0 && s.last() == '\r' {
        s.drop_last()
    } else {
        s
    }
}

/// The lines of a text: each ends at a line feed, which is not part of it,
/// nor is a carriage return before it; a text that ends in a line feed has no
/// empty line after it.
pub open spec fn lines(s: Seq<char>) -> Seq<Seq<char>>
    decreases s.len(),
{
    if s.len() == 0 {
        Seq::empty()
    } else {
        match index_of(s, '\n') {
            Some(k) if 0 <= k < s.len() => seq![chomp(s.take(k))] + lines(s.skip(k + 1)),
            _ => seq![s],
        }
    }
}

/// The lines of a text.
pub fn str_lines(s: &str) -> (r: Vec<String>)
    ensures
        text::views(r@) == lines(s@),
{
    let v = text::chars_of(s);
    let mut out: Vec<String> = Vec::new();
    let mut i: usize = 0;
    assert(v@.skip(0) =~= v@);
    proof {
        assert(text::views(out@) + lines(v@) =~= lines(v@));
    }
    while i < v.len()
        invariant
            i <= v@.len(),
            v@ == s@,
            text::views(out@) + lines(v@.skip(i as int)) == lines(v@),
        decreases v@.len() - i,
    {
        let ghost rest = v@.skip(i as int);
        proof {
            index_of_skip(v@, '\n', i as int, 0);
        }
        match chars_index_from(&v, '\n', i) {
            Some(k) => {
                let end: usize = if k > i && v[k - 1] == '\r' {
                    k - 1
                } else {
                    k
                };
                let piece = text::string_range(&v, i, end);
                let ghost before = text::views(out@);
                out.push(piece);
                proof {
                    if k > i {
                        assert(rest.take(k - i).last() == v@[k - 1]);
                    }
                    assert(piece@ =~= chomp(rest.take(k - i)));
                    assert(rest.skip(k - i + 1) =~= v@.skip(k + 1));
                    assert(before.push(piece@) + lines(v@.skip(k + 1)) =~= before + (seq![piece@] + lines(
                        v@.skip(k + 1),
                    )));
                }
                i = k + 1;
            },
            None => {
                let piece = text::string_range(&v, i, v.len());
                let ghost before = text::views(out@);
                out.push(piece);
                proof {
                    assert(piece@ =~= rest);
                    assert(before.push(piece@) =~= before + seq![piece@]);
                }
                return out;
            },
        }
    }
    assert(v@.skip(v@.len() as int) =~= Seq::<char>::empty());
    assert(text::views(out@) + Seq::<Seq<char>>::empty() =~= text::views(out@));
    out
}

/// How many characters of `s` from `from` on are not white space.
pub open spec fn word_end(s: Seq<char>, from: int) -> int
    decreases s.len() - from,
{
    if from < 0 || from >= s.len() || text::is_white(s[from]) {
        from
    } else {
        word_end(s, from + 1)
    }
}

/// The words of a text: its longest runs of characters other than white space.
pub open spec fn words(s: Seq<char>) -> Seq<Seq<char>>
    decreases s.len(),
{
    if s.len() == 0 {
        Seq::empty()
    } else if text::is_white(s[0]) {
        words(s.skip(1))
    } else {
        let k = word_end(s, 0);
        if 0 < k <= s.len() {
            seq![s.take(k)] + words(s.skip(k))
        } else {
            Seq::empty()
        }
    }
}

proof fn word_end_skip(s: Seq<char>, a: int, b: int)
    requires
        0 <= a <= s.len(),
        0 <= b,
    ensures
        word_end(s.skip(a), b) == word_end(s, a + b) - a,
    decreases s.len() - a - b,
{
    if a + b < s.len() {
        assert(s.skip(a)[b] == s[a + b]);
        if !text::is_white(s[a + b]) {
            word_end_skip(s, a, b + 1);
        }
    }
}

/// The words of a text.
pub fn str_words(s: &str) -> (r: Vec<String>)
    ensures
        text::views(r@) == words(s@),
{
    let v = text::chars_of(s);
    let mut out: Vec<String> = Vec::new();
    let mut i: usize = 0;
    assert(v@.skip(0) =~= v@);
    proof {
        assert(text::views(out@) + words(v@) =~= words(v@));
    }
    while i < v.len()
        invariant
            i <= v@.len(),
            v@ == s@,
            text::views(out@) + words(v@.skip(i as int)) == words(v@),
        decreases v@.len() - i,
    {
        let ghost rest = v@.skip(i as int);
        assert(rest[0] == v@[i as int]);
        if text::char_is_white(v[i]) {
            assert(rest.skip(1) =~= v@.skip(i as int + 1));
            i += 1;
        } else {
            let mut k: usize = i;
            while k < v.len() && !text::char_is_white(v[k])
                invariant
                    i <= k <= v@.len(),
                    word_end(v@, i as int) == word_end(v@, k as int),
                decreases v@.len() - k,
            {
                k += 1;
            }
            proof {
                word_end_skip(v@, i as int, 0);
                assert(word_end(v@, k as int) == k);
            }
            let piece = text::string_range(&v, i, k);
            let ghost before = text::views(out@);
            out.push(piece);
            proof {
                assert(k > i) by {
                    assert(word_end(v@, i as int) == word_end(v@, i as int + 1));
                }
                assert(piece@ =~= rest.take(k - i));
                assert(rest.skip(k - i) =~= v@.skip(k as int));
                assert(before.push(piece@) + words(v@.skip(k as int)) =~= before + (seq![piece@] + words(
                    v@.skip(k as int),
                )));
            }
            i = k;
        }
    }
    assert(v@.skip(v@.len() as int) =~= Seq::<char>::empty());
    assert(text::views(out@) + Seq::<Seq<char>>::empty() =~= text::views(out@));
    out
}

// ---- joining, replacing, repeating -------------------------------------------

/// The texts of `parts` one after the other, with `sep` between two of them.
pub open spec fn join(parts: Seq<Seq<char>>, sep: Seq<char>) -> Seq<char>
    decreases parts.len(),
{
    if parts.len() == 0 {
        Seq::empty()
    } else if parts.len() == 1 {
        parts[0]
    } else {
        join(parts.drop_last(), sep) + sep + parts.last()
    }
}

/// The texts of `parts` one after the other, with `sep` between two of them.
pub fn str_join(parts: &Vec<String>, sep: &str) -> (r: String)
    ensures
        r@ == join(text::views(parts@), sep@),
{
    let mut out = String::new();
    let mut i: usize = 0;
    let ghost all = text::views(parts@);
    assert(all.take(0) =~= Seq::empty());
    while i < parts.len()
        invariant
            i <= parts@.len(),
            all == text::views(parts@),
            out@ == join(all.take(i as int), sep@),
        decreases parts@.len() - i,
    {
        if i > 0 {
            out.push_str(sep);
        }
        out.push_str(&parts[i]);
        proof {
            let t = all.take(i as int + 1);
            assert(t.drop_last() =~= all.take(i as int));
            assert(t.last() == parts@[i as int]@);
            if i == 0 {
                assert(Seq::<char>::empty() + parts@[0]@ =~= parts@[0]@);
            }
        }
        i += 1;
    }
    assert(all.take(all.len() as int) =~= all);
    out
}

/// A list of pieces is joined as its first piece and the others joined.
pub proof fn join_first(first: Seq<char>, rest: Seq<Seq<char>>, sep: Seq<char>)
    ensures
        join(seq![first] + rest, sep) == if rest.len() == 0 {
            first
        } else {
            first + sep + join(rest, sep)
        },
    decreases rest.len(),
{
    let all = seq![first] + rest;
    if rest.len() > 0 {
        assert(all.drop_last() =~= seq![first] + rest.drop_last());
        assert(all.last() == rest.last());
        join_first(first, rest.drop_last(), sep);
        if rest.len() == 1 {
            assert(rest.drop_last().len() == 0);
        } else {
            assert(first + sep + join(rest.drop_last(), sep) + sep + rest.last() =~= first + sep + (
            join(rest.drop_last(), sep) + sep + rest.last()));
        }
    }
}

/// The pieces of a text joined again are the text.
pub proof fn split_pieces_join(s: Seq<char>, p: Seq<char>)
    requires
        p.len() > 0,
    ensures
        split_str(s, p).len() > 0,
        join(split_str(s, p), p) == s,
    decreases s.len(),
{
    match text::find(s, p) {
        Some(k) if 0 <= k <= s.len() - p.len() => {
            text::find_from_is_first(s, p, 0);
            let rest = s.skip(k + p.len());
            split_pieces_join(rest, p);
            join_first(s.take(k), split_str(rest, p), p);
            assert(s.take(k) + p + rest =~= s);
        },
        _ => {},
    }
}

/// `s` with each `c` replaced by `by`.
pub open spec fn replace_char(s: Seq<char>, c: char, by: Seq<char>) -> Seq<char>
    decreases s.len(),
{
    if s.len() == 0 {
        Seq::empty()
    } else {
        replace_char(s.drop_last(), c, by) + (if s.last() == c {
            by
        } else {
            seq![s.last()]
        })
    }
}

/// Two texts can be replaced one after the other.
pub proof fn replace_joins(a: Seq<char>, b: Seq<char>, c: char, by: Seq<char>)
    ensures
        replace_char(a + b, c, by) == replace_char(a, c, by) + replace_char(b, c, by),
    decreases b.len(),
{
    if b.len() == 0 {
        assert(a + b =~= a);
        assert(replace_char(a, c, by) + replace_char(b, c, by) =~= replace_char(a, c, by));
    } else {
        replace_joins(a, b.drop_last(), c, by);
        assert((a + b).drop_last() =~= a + b.drop_last());
        assert((a + b).last() == b.last());
        let last = if b.last() == c {
            by
        } else {
            seq![b.last()]
        };
        assert(replace_char(a, c, by) + replace_char(b.drop_last(), c, by) + last =~= replace_char(
            a,
            c,
            by,
        ) + (replace_char(b.drop_last(), c, by) + last));
    }
}

/// One character is replaced or stays.
pub proof fn replace_one(x: char, c: char, by: Seq<char>)
    ensures
        replace_char(seq![x], c, by) == if x == c {
            by
        } else {
            seq![x]
        },
{
    assert(seq![x].drop_last() =~= Seq::<char>::empty());
    assert(replace_char(Seq::<char>::empty(), c, by) =~= Seq::<char>::empty());
    assert(Seq::<char>::empty() + by =~= by);
    assert(Seq::<char>::empty() + seq![x] =~= seq![x]);
}

/// `s` with each `c` replaced by `by`.
pub fn str_replace_char(s: &str, c: char, by: &str) -> (r: String)
    ensures
        r@ == replace_char(s@, c, by@),
{
    let v = text::chars_of(s);
    let mut out = String::new();
    let mut i: usize = 0;
    assert(v@.take(0) =~= Seq::empty());
    while i < v.len()
        invariant
            i <= v@.len(),
            v@ == s@,
            out@ == replace_char(v@.take(i as int), c, by@),
        decreases v@.len() - i,
    {
        let ghost t = v@.take(i as int + 1);
        assert(t.drop_last() =~= v@.take(i as int));
        assert(t.last() == v@[i as int]);
        let ghost before = out@;
        if v[i] == c {
            out.push_str(by);
        } else {
            out.push(v[i]);
            assert(before.push(v@[i as int]) =~= before + seq![v@[i as int]]);
        }
        i += 1;
    }
    assert(v@.take(v@.len() as int) =~= v@);
    out
}

/// `n` copies of `s`, one after the other.
pub open spec fn repeat(s: Seq<char>, n: nat) -> Seq<char>
    decreases n,
{
    if n == 0 {
        Seq::empty()
    } else {
        repeat(s, (n - 1) as nat) + s
    }
}

/// `n` copies of `s`, one after the other.
pub fn str_repeat(s: &str, n: usize) -> (r: String)
    ensures
        r@ == repeat(s@, n as nat),
{
    let mut out = String::new();
    let mut i: usize = 0;
    while i < n
        invariant
            i <= n,
            out@ == repeat(s@, i as nat),
        decreases n - i,
    {
        out.push_str(s);
        i += 1;
    }
    out
}

/// What stands before the first `c`; all of the text where there is none.
pub open spec fn first_piece(s: Seq<char>, c: char) -> Seq<char> {
    match index_of(s, c) {
        Some(k) => s.take(k),
        None => s,
    }
}

/// What stands before the first `c`; all of the text where there is none.
pub fn str_first_piece(s: &str, c: char) -> (r: String)
    ensures
        r@ == first_piece(s@, c),
{
    let v = text::chars_of(s);
    match chars_index_from(&v, c, 0) {
        Some(k) => {
            let r = text::string_range(&v, 0, k);
            assert(r@ =~= s@.take(k as int));
            r
        },
        None => s.to_owned(),
    }
}

/// The text from a position on.
pub fn str_skip(s: &str, k: usize) -> (r: String)
    requires
        k <= s@.len(),
    ensures
        r@ == s@.skip(k as int),
{
    let v = text::chars_of(s);
    let n: usize = v.len();
    let r = text::string_range(&v, k, n);
    assert(r@ =~= s@.skip(k as int));
    r
}

/// The text up to a position.
pub fn str_take(s: &str, k: usize) -> (r: String)
    requires
        k <= s@.len(),
    ensures
        r@ == s@.take(k as int),
{
    let v = text::chars_of(s);
    let r = text::string_range(&v, 0, k);
    assert(r@ =~= s@.take(k as int));
    r
}

} // verus!
