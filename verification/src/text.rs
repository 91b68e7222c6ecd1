//! Text operations on `str` and `String`, stated over sequences of characters.
//!
//! The specification half of this module describes strings as `Seq<char>`;
//! the executable half computes the same things on `&str` and `String`.

use vstd::prelude::*;

verus! {

broadcast use {vstd::seq::group_seq_axioms, vstd::string::group_string_axioms};

// ---- trusted operations of std --------------------------------------------

/// `String::push` appends one character.
pub assume_specification[ String::push ](s: &mut String, c: char)
    ensures
        final(s)@ == old(s)@.push(c),
;

/// `String::push_str` appends a string slice.
pub assume_specification[ String::push_str ](s: &mut String, t: &str)
    ensures
        final(s)@ == old(s)@ + t@,
;

/// What `str::to_lowercase` returns of a text that is not all ASCII.
pub uninterp spec fn unicode_lowercase(s: Seq<char>) -> Seq<char>;

/// A text in lower case: on ASCII characters `A`-`Z` become `a`-`z`; other texts
/// follow Unicode.
pub open spec fn lowercase(s: Seq<char>) -> Seq<char> {
    if vstd::utf8::is_ascii_chars(s) {
        s.map_values(|c: char| ascii_lower(c))
    } else {
        unicode_lowercase(s)
    }
}

/// Calls `str::to_lowercase`. On a text of ASCII characters it maps `A`-`Z` to
/// `a`-`z` and keeps the rest; on others the mapping follows Unicode and is only
/// named.
#[verifier::external_body]
pub(crate) fn to_lowercase(s: &str) -> (r: String)
    ensures
        vstd::utf8::is_ascii_chars(s@) ==> r@ == s@.map_values(|c: char| ascii_lower(c)),
        !vstd::utf8::is_ascii_chars(s@) ==> r@ == unicode_lowercase(s@),
        r@ == lowercase(s@),
{
    s.to_lowercase()
}

/// What `str::to_uppercase` returns of a text that is not all ASCII.
pub uninterp spec fn unicode_uppercase(s: Seq<char>) -> Seq<char>;

/// A text in upper case: on ASCII characters `a`-`z` become `A`-`Z`; other texts
/// follow Unicode.
pub open spec fn uppercase(s: Seq<char>) -> Seq<char> {
    if vstd::utf8::is_ascii_chars(s) {
        s.map_values(|c: char| ascii_upper(c))
    } else {
        unicode_uppercase(s)
    }
}

/// Calls `str::to_uppercase`. On a text of ASCII characters it maps `a`-`z` to
/// `A`-`Z` and keeps the rest; on others the mapping follows Unicode and is only
/// named.
#[verifier::external_body]
pub(crate) fn to_uppercase(s: &str) -> (r: String)
    ensures
        vstd::utf8::is_ascii_chars(s@) ==> r@ == s@.map_values(|c: char| ascii_upper(c)),
        !vstd::utf8::is_ascii_chars(s@) ==> r@ == unicode_uppercase(s@),
        r@ == uppercase(s@),
{
    s.to_uppercase()
}

/// What `char::is_alphanumeric` returns of a character that is not ASCII: the
/// Unicode `Alphabetic` property or one of the numeric general categories.
pub uninterp spec fn unicode_alphanumeric(c: char) -> bool;

/// A letter or a digit; outside ASCII the classes follow Unicode.
pub open spec fn is_alphanumeric(c: char) -> bool {
    if (c as u32) < 128 {
        is_ascii_alphanumeric(c)
    } else {
        unicode_alphanumeric(c)
    }
}

/// Calls `char::is_alphanumeric`. Among the ASCII characters it tells the letters
/// and the digits; of others the classes follow Unicode and are only named.
#[verifier::external_body]
pub(crate) fn char_is_alphanumeric(c: char) -> (r: bool)
    ensures
        (c as u32) < 128 ==> r == is_ascii_alphanumeric(c),
        (c as u32) >= 128 ==> r == unicode_alphanumeric(c),
        r == is_alphanumeric(c),
{
    c.is_alphanumeric()
}

// ---- characters ------------------------------------------------------------

/// The characters with the Unicode `White_Space` property.
pub open spec fn is_white(c: char) -> bool {
    let u = c as u32;
    ||| 0x9 <= u <= 0xD
    ||| u == 0x20
    ||| u == 0x85
    ||| u == 0xA0
    ||| u == 0x1680
    ||| 0x2000 <= u <= 0x200A
    ||| u == 0x2028
    ||| u == 0x2029
    ||| u == 0x202F
    ||| u == 0x205F
    ||| u == 0x3000
}

pub open spec fn is_digit(c: char) -> bool {
    '0' <= c && c <= '9'
}

pub open spec fn is_ascii_alphanumeric(c: char) -> bool {
    ||| '0' <= c && c <= '9'
    ||| 'a' <= c && c <= 'z'
    ||| 'A' <= c && c <= 'Z'
}

pub open spec fn ascii_lower(c: char) -> char {
    if 'A' <= c && c <= 'Z' {
        ((c as u32 + 32) as u32) as char
    } else {
        c
    }
}

pub open spec fn ascii_upper(c: char) -> char {
    if 'a' <= c && c <= 'z' {
        ((c as u32 - 32) as u32) as char
    } else {
        c
    }
}

/// Whether `c` has the Unicode `White_Space` property.
pub fn char_is_white(c: char) -> (r: bool)
    ensures
        r == is_white(c),
{
    let u = c as u32;
    (0x9 <= u && u <= 0xD) || u == 0x20 || u == 0x85 || u == 0xA0 || u == 0x1680
        || (0x2000 <= u && u <= 0x200A) || u == 0x2028 || u == 0x2029 || u == 0x202F
        || u == 0x205F || u == 0x3000
}

/// Whether `c` is an ASCII letter or digit.
pub fn char_is_ascii_alphanumeric(c: char) -> (r: bool)
    ensures
        r == is_ascii_alphanumeric(c),
{
    ('0' <= c && c <= '9') || ('a' <= c && c <= 'z') || ('A' <= c && c <= 'Z')
}

/// The ASCII lowercase of `c`; any other character is kept.
pub fn char_ascii_lower(c: char) -> (r: char)
    ensures
        r == ascii_lower(c),
{
    if 'A' <= c && c <= 'Z' {
        let b: u8 = c as u8;
        let l: u8 = b + 32;
        l as char
    } else {
        c
    }
}

// ---- characters of a string --------------------------------------------------

/// The characters of `s`.
pub fn chars_of(s: &str) -> (r: Vec<char>)
    ensures
        r@ == s@,
{
    let mut out: Vec<char> = Vec::new();
    for c in it: s.chars()
        invariant
            it.seq() == s@,
            out@ == s@.take(it.index() as int),
    {
        assert(s@.take(it.index() as int + 1) =~= s@.take(it.index() as int).push(c));
        out.push(c);
    }
    assert(s@.take(s@.len() as int) =~= s@);
    out
}

/// The string made of the characters `v[from..to]`.
pub fn string_range(v: &[char], from: usize, to: usize) -> (r: String)
    requires
        from <= to <= v@.len(),
    ensures
        r@ == v@.subrange(from as int, to as int),
{
    let mut out = String::new();
    let mut i: usize = from;
    while i < to
        invariant
            from <= i <= to <= v@.len(),
            out@ == v@.subrange(from as int, i as int),
        decreases to - i,
    {
        assert(v@.subrange(from as int, i as int + 1) =~= v@.subrange(from as int, i as int).push(v@[i as int]));
        out.push(v[i]);
        i += 1;
    }
    out
}

/// The string made of the characters `v`.
pub fn string_of(v: &[char]) -> (r: String)
    ensures
        r@ == v@,
{
    let r = string_range(v, 0, v.len());
    assert(v@.subrange(0, v@.len() as int) =~= v@);
    r
}

/// Whether two strings hold the same characters.
pub fn str_eq(a: &str, b: &str) -> (r: bool)
    ensures
        r == (a@ == b@),
{
    a.to_owned() == b.to_owned()
}

/// Number of characters.
pub fn char_count(s: &str) -> (r: usize)
    ensures
        r == s@.len(),
{
    chars_of(s).len()
}

/// Number of bytes of the UTF-8 encoding.
pub open spec fn byte_len(s: Seq<char>) -> nat {
    vstd::utf8::encode_utf8(s).len()
}

/// Number of bytes of the UTF-8 encoding.
pub fn str_byte_len(s: &str) -> (r: usize)
    ensures
        r == byte_len(s@),
{
    s.as_bytes().len()
}

/// The texts of a list of strings.
pub open spec fn views(v: Seq<String>) -> Seq<Seq<char>> {
    v.map_values(|s: String| s@)
}

pub broadcast proof fn views_push(v: Seq<String>, s: String)
    ensures
        #[trigger] views(v.push(s)) == views(v).push(s@),
{
    assert(views(v.push(s)) =~= views(v).push(s@));
}

pub broadcast proof fn views_empty()
    ensures
        #[trigger] views(Seq::<String>::empty()) == Seq::<Seq<char>>::empty(),
{
    assert(views(Seq::<String>::empty()) =~= Seq::<Seq<char>>::empty());
}

/// A copy of a list of strings.
pub fn clone_strings(v: &Vec<String>) -> (r: Vec<String>)
    ensures
        views(r@) == views(v@),
{
    let mut out: Vec<String> = Vec::new();
    let mut i: usize = 0;
    while i < v.len()
        invariant
            i <= v@.len(),
            views(out@) == views(v@).take(i as int),
        decreases v@.len() - i,
    {
        let s = v[i].clone();
        let ghost before = out@;
        out.push(s);
        proof {
            views_push(before, s);
            assert(views(v@).take(i as int + 1) =~= views(v@).take(i as int).push(views(v@)[i as int]));
        }
        i += 1;
    }
    assert(views(v@).take(v@.len() as int) =~= views(v@));
    out
}

// ---- substrings --------------------------------------------------------------

/// `p` stands in `s` at position `i`.
pub open spec fn occurs_at(s: Seq<char>, p: Seq<char>, i: int) -> bool {
    0 <= i && i + p.len() <= s.len() && s.subrange(i, i + p.len()) == p
}

/// `s` begins with `p`.
pub open spec fn starts_with(s: Seq<char>, p: Seq<char>) -> bool {
    occurs_at(s, p, 0)
}

/// `s` ends with `p`.
pub open spec fn ends_with(s: Seq<char>, p: Seq<char>) -> bool {
    occurs_at(s, p, s.len() - p.len())
}

/// `p` stands somewhere in `s`.
pub open spec fn contains(s: Seq<char>, p: Seq<char>) -> bool {
    exists|i: int| occurs_at(s, p, i)
}

/// The first position at or after `from` where `p` stands in `s`.
pub open spec fn find_from(s: Seq<char>, p: Seq<char>, from: int) -> Option<int>
    decreases s.len() + 1 - from,
{
    if from + p.len() > s.len() || from > s.len() {
        None
    } else if occurs_at(s, p, from) {
        Some(from)
    } else {
        find_from(s, p, from + 1)
    }
}

/// The first position where `p` stands in `s`.
pub open spec fn find(s: Seq<char>, p: Seq<char>) -> Option<int> {
    find_from(s, p, 0)
}

/// `find_from` gives the least position at or after `from`, and `None` only
/// where there is none.
pub proof fn find_from_is_first(s: Seq<char>, p: Seq<char>, from: int)
    requires
        0 <= from,
    ensures
        match find_from(s, p, from) {
            Some(k) => from <= k && occurs_at(s, p, k) && forall|j: int|
                from <= j < k ==> !occurs_at(s, p, j),
            None => forall|j: int| from <= j ==> !occurs_at(s, p, j),
        },
    decreases s.len() + 1 - from,
{
    if from + p.len() > s.len() || from > s.len() {
    } else if occurs_at(s, p, from) {
    } else {
        find_from_is_first(s, p, from + 1);
    }
}

/// A text contains a pattern exactly where the pattern is found in it.
pub proof fn contains_iff_found(s: Seq<char>, p: Seq<char>)
    ensures
        contains(s, p) <==> find(s, p) is Some,
{
    find_from_is_first(s, p, 0);
    if contains(s, p) {
        let i = choose|i: int| occurs_at(s, p, i);
        assert(occurs_at(s, p, i));
    }
}

pub open spec fn to_int(o: Option<usize>) -> Option<int> {
    match o {
        Some(k) => Some(k as int),
        None => None,
    }
}

/// Whether the pattern stands in `v` at position `i`.
pub fn chars_occur_at(v: &[char], p: &[char], i: usize) -> (r: bool)
    ensures
        r == occurs_at(v@, p@, i as int),
{
    if p.len() > v.len() || i > v.len() - p.len() {
        return false;
    }
    let n: usize = v.len();
    let mut k: usize = 0;
    while k < p.len()
        invariant
            k <= p@.len(),
            n == v@.len(),
            i + p@.len() <= n,
            forall|j: int| 0 <= j < k ==> v@[i + j] == p@[j],
        decreases p@.len() - k,
    {
        if v[i + k] != p[k] {
            assert(v@.subrange(i as int, i + p@.len())[k as int] != p@[k as int]);
            return false;
        }
        k += 1;
    }
    assert(v@.subrange(i as int, i + p@.len()) =~= p@);
    true
}

/// The first position at or after `from` where the pattern stands in `v`.
pub fn chars_find_from(v: &[char], p: &[char], from: usize) -> (r: Option<usize>)
    ensures
        to_int(r) == find_from(v@, p@, from as int),
        r matches Some(k) ==> from <= k && k + p@.len() <= v@.len(),
{
    if p.len() > v.len() {
        return None;
    }
    let last: usize = v.len() - p.len();
    let mut i: usize = from;
    while i <= last
        invariant
            from <= i,
            last + p@.len() == v@.len(),
            find_from(v@, p@, from as int) == find_from(v@, p@, i as int),
        decreases v@.len() + 1 - i,
    {
        if chars_occur_at(v, p, i) {
            return Some(i);
        }
        if i == last {
            assert(find_from(v@, p@, i + 1) is None);
            return None;
        }
        i += 1;
    }
    None
}

/// The first position where `p` stands in `s`, in characters.
pub fn str_find(s: &str, p: &str) -> (r: Option<usize>)
    ensures
        to_int(r) == find(s@, p@),
        r matches Some(k) ==> k + p@.len() <= s@.len(),
{
    let v = chars_of(s);
    let q = chars_of(p);
    chars_find_from(&v, &q, 0)
}

/// Whether `p` stands somewhere in `s`.
pub fn str_contains(s: &str, p: &str) -> (r: bool)
    ensures
        r == contains(s@, p@),
{
    proof {
        contains_iff_found(s@, p@);
    }
    str_find(s, p).is_some()
}

/// Whether `s` begins with `p`.
pub fn str_starts_with(s: &str, p: &str) -> (r: bool)
    ensures
        r == starts_with(s@, p@),
{
    let v = chars_of(s);
    let q = chars_of(p);
    chars_occur_at(&v, &q, 0)
}

/// Whether `s` ends with `p`.
pub fn str_ends_with(s: &str, p: &str) -> (r: bool)
    ensures
        r == ends_with(s@, p@),
{
    let v = chars_of(s);
    let q = chars_of(p);
    if q.len() > v.len() {
        return false;
    }
    chars_occur_at(&v, &q, v.len() - q.len())
}

/// The text `s[from..to]`, in characters.
pub fn str_range(s: &str, from: usize, to: usize) -> (r: String)
    requires
        from <= to <= s@.len(),
    ensures
        r@ == s@.subrange(from as int, to as int),
{
    let v = chars_of(s);
    string_range(&v, from, to)
}

/// The first `n` characters of `s`, all of them where it is shorter.
pub open spec fn prefix(s: Seq<char>, n: nat) -> Seq<char> {
    if s.len() <= n {
        s
    } else {
        s.take(n as int)
    }
}

/// The first `n` characters of `s`, all of them where it is shorter.
pub fn str_prefix(s: &str, n: usize) -> (r: String)
    ensures
        r@ == prefix(s@, n as nat),
{
    let v = chars_of(s);
    if v.len() <= n {
        s.to_owned()
    } else {
        string_range(&v, 0, n)
    }
}

/// What follows `p` where `s` begins with it.
pub open spec fn strip_prefix(s: Seq<char>, p: Seq<char>) -> Option<Seq<char>> {
    if starts_with(s, p) {
        Some(s.skip(p.len() as int))
    } else {
        None
    }
}

/// The texts of an optional string.
pub open spec fn opt_view(o: Option<String>) -> Option<Seq<char>> {
    match o {
        Some(s) => Some(s@),
        None => None,
    }
}

/// What follows `p` where `s` begins with it.
pub fn str_strip_prefix(s: &str, p: &str) -> (r: Option<String>)
    ensures
        opt_view(r) == strip_prefix(s@, p@),
{
    let v = chars_of(s);
    let q = chars_of(p);
    if chars_occur_at(&v, &q, 0) {
        assert(v@.subrange(q@.len() as int, v@.len() as int) =~= v@.skip(q@.len() as int));
        Some(string_range(&v, q.len(), v.len()))
    } else {
        None
    }
}

/// A copy of an optional string.
pub fn clone_opt(o: &Option<String>) -> (r: Option<String>)
    ensures
        opt_view(r) == opt_view(*o),
{
    match o {
        Some(s) => Some(s.clone()),
        None => None,
    }
}

/// Whether an optional string is `s`.
pub fn opt_is(o: &Option<String>, s: &str) -> (r: bool)
    ensures
        r == (opt_view(*o) == Some(s@)),
{
    match o {
        Some(t) => str_eq(t, s),
        None => false,
    }
}

/// The text of an optional string, or another one where there is none.
pub open spec fn text_or(o: Option<Seq<char>>, other: Seq<char>) -> Seq<char> {
    match o {
        Some(s) => s,
        None => other,
    }
}

/// The text of an optional string, or another one where there is none.
pub fn opt_or(o: &Option<String>, other: &str) -> (r: String)
    ensures
        r@ == text_or(opt_view(*o), other@),
{
    match o {
        Some(s) => s.clone(),
        None => other.to_owned(),
    }
}

/// `s` cut after `n` characters, marked where something is left out.
pub open spec fn truncated(s: Seq<char>, n: nat) -> Seq<char> {
    if s.len() > n {
        s.take(n as int) + "…"@
    } else {
        s
    }
}

/// `s` cut after `n` characters, marked where something is left out.
pub fn truncate(s: &str, n: usize) -> (r: String)
    ensures
        r@ == truncated(s@, n as nat),
{
    let v = chars_of(s);
    if v.len() > n {
        assert(v@.subrange(0, n as int) =~= v@.take(n as int));
        let mut out = string_range(&v, 0, n);
        out.push_str("…");
        out
    } else {
        s.to_owned()
    }
}

} // verus!
