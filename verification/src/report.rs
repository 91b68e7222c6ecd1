//! What a scan reports: the summary on the terminal, and the SARIF and JSON
//! documents.

use vstd::prelude::*;
use crate::digits;
use crate::findings;
use crate::findings::{DastFinding, IacFinding, SastFinding, ScaFinding};
use crate::pieces;
use crate::severity;
use crate::severity::Rated;
use crate::text;

verus! {

broadcast use {
    vstd::seq::group_seq_axioms,
    vstd::string::group_string_axioms,
    text::views_push,
    text::views_empty,
};

pub const RESET: &'static str = "\x1b[0m";

pub const BOLD: &'static str = "\x1b[1m";

pub const DIM: &'static str = "\x1b[2m";

pub const GREEN: &'static str = "\x1b[32m";

/// The left edge of a row.
pub const EDGE: &'static str = "\x1b[1m│\x1b[0m";

/// The line between two parts of a summary.
pub const MIDDLE: &'static str =
    "\x1b[1m├──────────────────────────────────────────────────────────────┤\x1b[0m\n";

/// The line under a summary.
pub const BOTTOM: &'static str =
    "\x1b[1m└──────────────────────────────────────────────────────────────┘\x1b[0m\n";

// ---- wrapped text --------------------------------------------------------------------

/// Lines that are full, and the line that is being filled.
pub struct Filling {
    pub full: Seq<Seq<char>>,
    pub line: Seq<char>,
}

/// One more word: on the line where it fits within `width` bytes, else on a
/// line of its own.
pub open spec fn word_added(f: Filling, word: Seq<char>, width: nat) -> Filling {
    if f.line.len() == 0 {
        Filling { full: f.full, line: word }
    } else if text::byte_len(f.line) + 1 + text::byte_len(word) <= width {
        Filling { full: f.full, line: f.line.push(' ') + word }
    } else {
        Filling { full: f.full.push(f.line), line: word }
    }
}

pub open spec fn filled(words: Seq<Seq<char>>, width: nat) -> Filling
    decreases words.len(),
{
    if words.len() == 0 {
        Filling { full: Seq::empty(), line: Seq::empty() }
    } else {
        word_added(filled(words.drop_last(), width), words.last(), width)
    }
}

/// A text as lines of words, each at most `width` bytes long unless one word
/// is longer.
pub open spec fn wrapped(s: Seq<char>, width: nat) -> Seq<Seq<char>> {
    let f = filled(pieces::words(s), width);
    if f.line.len() == 0 {
        f.full
    } else {
        f.full.push(f.line)
    }
}

/// A text as lines of words, each at most `width` bytes long unless one word
/// is longer.
pub fn wrap_text(s: &str, width: usize) -> (r: Vec<String>)
    ensures
        text::views(r@) == wrapped(s@, width as nat),
{
    let words = pieces::str_words(s);
    let ghost all = text::views(words@);
    let mut lines: Vec<String> = Vec::new();
    let mut line = String::new();
    let mut i: usize = 0;
    while i < words.len()
        invariant
            i <= words@.len(),
            all == text::views(words@),
            (Filling { full: text::views(lines@), line: line@ }) == filled(
                all.take(i as int),
                width as nat,
            ),
        decreases words@.len() - i,
    {
        assert(all.take(i + 1).drop_last() =~= all.take(i as int));
        assert(all.take(i + 1).last() == words@[i as int]@);
        let n = text::str_byte_len(&line);
        let m = text::str_byte_len(&words[i]);
        if text::char_count(&line) == 0 {
            line = words[i].clone();
        } else if m <= width && n < width && n + 1 <= width - m {
            line.push(' ');
            line.push_str(&words[i]);
        } else {
            lines.push(line);
            line = words[i].clone();
        }
        i += 1;
    }
    assert(all.take(all.len() as int) =~= all);
    if text::char_count(&line) > 0 {
        lines.push(line);
    }
    lines
}

// ---- rows ------------------------------------------------------------------------------

/// One row of a summary.
pub open spec fn row(content: Seq<char>) -> Seq<char> {
    EDGE@ + content + "\n"@
}

fn push_row(out: &mut String, content: &str)
    ensures
        final(out)@ == old(out)@ + row(content@),
{
    let mut r = EDGE.to_owned();
    r.push_str(content);
    r.push_str("\n");
    out.push_str(&r);
}

/// A row for each line, indented.
pub open spec fn text_rows(lines: Seq<Seq<char>>) -> Seq<char>
    decreases lines.len(),
{
    if lines.len() == 0 {
        Seq::empty()
    } else {
        text_rows(lines.drop_last()) + row("      "@ + lines.last())
    }
}

fn text_rows_string(lines: &Vec<String>) -> (r: String)
    ensures
        r@ == text_rows(text::views(lines@)),
{
    let ghost all = text::views(lines@);
    let mut out = String::new();
    let mut i: usize = 0;
    while i < lines.len()
        invariant
            i <= lines@.len(),
            all == text::views(lines@),
            out@ == text_rows(all.take(i as int)),
        decreases lines@.len() - i,
    {
        assert(all.take(i + 1).drop_last() =~= all.take(i as int));
        assert(all.take(i + 1).last() == lines@[i as int]@);
        let mut s = "      ".to_owned();
        s.push_str(&lines[i]);
        push_row(&mut out, &s);
        i += 1;
    }
    assert(all.take(all.len() as int) =~= all);
    out
}

/// A dim row with a label, or nothing where there is no text.
pub open spec fn dim_row(label: Seq<char>, t: Seq<char>) -> Seq<char> {
    if t.len() == 0 {
        Seq::empty()
    } else {
        row("      "@ + DIM@ + label + t + RESET@)
    }
}

fn dim_row_string(label: &str, t: &str) -> (r: String)
    ensures
        r@ == dim_row(label@, t@),
{
    let mut out = String::new();
    if text::char_count(t) > 0 {
        let mut s = "      ".to_owned();
        s.push_str(DIM);
        s.push_str(label);
        s.push_str(t);
        s.push_str(RESET);
        push_row(&mut out, &s);
        assert(out@ =~= dim_row(label@, t@));
    }
    out
}

/// The row that opens an entry: number, severity and name.
pub open spec fn head_row(number: nat, label: Seq<char>, name: Seq<char>) -> Seq<char> {
    row(""@) + row(
        "  "@ + BOLD@ + "#"@ + digits::dec(number) + RESET@ + "  "@ + severity::level_color(
            severity::level(label),
        ) + "["@ + text::uppercase(label) + "]"@ + RESET@ + "  "@ + BOLD@ + name + RESET@,
    )
}

fn head_row_string(number: usize, label: &str, name: &str) -> (r: String)
    ensures
        r@ == head_row(number as nat, label@, name@),
{
    let mut out = String::new();
    push_row(&mut out, "");
    assert(out@ =~= row(""@));
    let mut s = "  ".to_owned();
    s.push_str(BOLD);
    s.push_str("#");
    let n = digits::usize_to_string(number);
    s.push_str(&n);
    s.push_str(RESET);
    s.push_str("  ");
    s.push_str(severity::sast_severity_color(label));
    s.push_str("[");
    let up = text::to_uppercase(label);
    s.push_str(&up);
    s.push_str("]");
    s.push_str(RESET);
    s.push_str("  ");
    s.push_str(BOLD);
    s.push_str(name);
    s.push_str(RESET);
    push_row(&mut out, &s);
    out
}

/// How many entries have one severity; nothing where none has. The code list
/// keeps its own column.
pub open spec fn count_row<T: Rated>(v: Seq<T::V>, word: Seq<char>, code: bool) -> Seq<char> {
    let n = severity::labelled::<T>(v, word, v.len() as int);
    let color = severity::level_color(severity::level(word));
    if n == 0 {
        Seq::empty()
    } else if code {
        row(
            "  "@ + color + text::uppercase(word) + "        "@ + RESET@ + "  "@ + BOLD@ + digits::dec(
                n,
            ) + RESET@,
        )
    } else {
        row(
            "  "@ + color + digits::pad_right(text::uppercase(word), ' ', 10) + RESET@ + "  "@
                + BOLD@ + digits::dec(n) + RESET@,
        )
    }
}

fn count_row_string<T: Rated>(v: &Vec<T>, word: &str, code: bool) -> (r: String)
    ensures
        r@ == count_row::<T>(severity::seen(v@), word@, code),
{
    let mut out = String::new();
    let n = severity::count_labelled(v, word);
    if n == 0 {
        return out;
    }
    let up = text::to_uppercase(word);
    let mut s = "  ".to_owned();
    s.push_str(severity::sast_severity_color(word));
    if code {
        s.push_str(&up);
        s.push_str("        ");
    } else {
        let p = digits::str_pad_right(&up, ' ', 10);
        s.push_str(&p);
    }
    s.push_str(RESET);
    s.push_str("  ");
    s.push_str(BOLD);
    let c = digits::usize_to_string(n);
    s.push_str(&c);
    s.push_str(RESET);
    push_row(&mut out, &s);
    assert(out@ =~= count_row::<T>(severity::seen(v@), word@, code));
    out
}

/// The counts, the most severe first.
pub open spec fn count_rows<T: Rated>(v: Seq<T::V>, code: bool) -> Seq<char> {
    count_row::<T>(v, "critical"@, code) + count_row::<T>(v, "high"@, code) + count_row::<T>(
        v,
        "medium"@,
        code,
    ) + count_row::<T>(v, "low"@, code)
}

fn count_rows_string<T: Rated>(v: &Vec<T>, code: bool) -> (r: String)
    ensures
        r@ == count_rows::<T>(severity::seen(v@), code),
{
    let mut s = count_row_string(v, "critical", code);
    let b = count_row_string(v, "high", code);
    let c = count_row_string(v, "medium", code);
    let d = count_row_string(v, "low", code);
    s.push_str(&b);
    s.push_str(&c);
    s.push_str(&d);
    s
}

/// A row of the heading.
pub open spec fn fact(label: Seq<char>, t: Seq<char>) -> Seq<char> {
    row(label + t)
}

fn push_fact(out: &mut String, label: &str, t: &str)
    ensures
        final(out)@ == old(out)@ + fact(label@, t@),
{
    let mut s = label.to_owned();
    s.push_str(t);
    push_row(out, &s);
}

/// A number in bold, with a word behind it.
pub open spec fn bold_number(n: nat, word: Seq<char>) -> Seq<char> {
    BOLD@ + digits::dec(n) + RESET@ + word
}

fn bold_number_string(n: usize, word: &str) -> (r: String)
    ensures
        r@ == bold_number(n as nat, word@),
{
    let mut s = BOLD.to_owned();
    let d = digits::usize_to_string(n);
    s.push_str(&d);
    s.push_str(RESET);
    s.push_str(word);
    s
}

/// Seconds as text.
pub open spec fn seconds(n: nat) -> Seq<char> {
    digits::dec(n) + "s"@
}

fn seconds_string(n: u64) -> (r: String)
    ensures
        r@ == seconds(n as nat),
{
    let mut s = digits::u64_to_string(n);
    s.push_str("s");
    s
}

/// A green row that says that nothing was found.
pub open spec fn clean_row(t: Seq<char>) -> Seq<char> {
    row("  "@ + GREEN@ + t + RESET@)
}

fn push_clean(out: &mut String, t: &str)
    ensures
        final(out)@ == old(out)@ + clean_row(t@) + BOTTOM@,
{
    let mut s = "  ".to_owned();
    s.push_str(GREEN);
    s.push_str(t);
    s.push_str(RESET);
    push_row(out, &s);
    out.push_str(BOTTOM);
}

/// A place in a file: with its line where that is known.
pub open spec fn place(file: Seq<char>, line: Option<u64>) -> Seq<char> {
    match line {
        Some(l) => file + ":"@ + digits::dec(l as nat),
        None => file,
    }
}

fn place_string(file: &str, line: Option<u64>) -> (r: String)
    ensures
        r@ == place(file@, line),
{
    let mut s = file.to_owned();
    match line {
        Some(l) => {
            s.push_str(":");
            let n = digits::u64_to_string(l);
            s.push_str(&n);
        },
        None => {},
    }
    s
}

// ---- source code -------------------------------------------------------------------------

pub const SAST_TOP: &'static str =
    "\x1b[1m┌─ Strobes SAST Scan Results ─────────────────────────────────┐\x1b[0m\n";

/// One finding of a code scan.
pub open spec fn sast_entry(number: nat, f: findings::SastFindingView) -> Seq<char> {
    head_row(number, f.severity, f.title) + row(
        "      "@ + DIM@ + place(f.file, f.line) + RESET@,
    ) + text_rows(wrapped(f.description, 68)) + dim_row("Fix: "@, f.fix)
}

pub open spec fn sast_entries(v: Seq<findings::SastFindingView>) -> Seq<char>
    decreases v.len(),
{
    if v.len() == 0 {
        Seq::empty()
    } else {
        sast_entries(v.drop_last()) + sast_entry(v.len(), v.last())
    }
}

/// The summary of a code scan.
pub open spec fn sast_summary(v: Seq<findings::SastFindingView>, target: Seq<char>, secs: nat) -> Seq<
    char,
> {
    let top = "\n"@ + SAST_TOP@ + fact("  Target : "@, target) + fact("  Time   : "@, seconds(secs))
        + fact("  Total  : "@, bold_number(v.len(), " finding(s)"@)) + MIDDLE@ + count_rows::<
        SastFinding,
    >(v, true);
    if v.len() == 0 {
        top + clean_row("No security findings — clean scan."@) + BOTTOM@
    } else {
        top + MIDDLE@ + sast_entries(severity::ranked::<SastFinding>(v)) + BOTTOM@
    }
}

fn sast_entry_string(number: usize, f: &SastFinding) -> (r: String)
    ensures
        r@ == sast_entry(number as nat, f@),
{
    let mut out = head_row_string(number, &f.severity, &f.title);
    let mut s = "      ".to_owned();
    s.push_str(DIM);
    let p = place_string(&f.file, f.line);
    s.push_str(&p);
    s.push_str(RESET);
    push_row(&mut out, &s);
    let lines = wrap_text(&f.description, 68);
    let d = text_rows_string(&lines);
    out.push_str(&d);
    let x = dim_row_string("Fix: ", &f.fix);
    out.push_str(&x);
    out
}

/// The summary of a code scan, the most severe findings first.
pub fn print_sast_summary(v: &Vec<SastFinding>, target: &str, secs: u64) -> (r: String)
    ensures
        r@ == sast_summary(severity::seen(v@), target@, secs as nat),
{
    let mut out = "\n".to_owned();
    out.push_str(SAST_TOP);
    push_fact(&mut out, "  Target : ", target);
    let t = seconds_string(secs);
    push_fact(&mut out, "  Time   : ", &t);
    let n = bold_number_string(v.len(), " finding(s)");
    push_fact(&mut out, "  Total  : ", &n);
    out.push_str(MIDDLE);
    let c = count_rows_string(v, true);
    out.push_str(&c);
    if v.len() == 0 {
        push_clean(&mut out, "No security findings — clean scan.");
        return out;
    }
    out.push_str(MIDDLE);
    let sorted = severity::rank(v);
    let ghost all = severity::seen(sorted@);
    let mut body = String::new();
    let mut i: usize = 0;
    while i < sorted.len()
        invariant
            i <= sorted@.len(),
            all == severity::seen(sorted@),
            body@ == sast_entries(all.take(i as int)),
        decreases sorted@.len() - i,
    {
        assert(all.take(i + 1).drop_last() =~= all.take(i as int));
        assert(all.take(i + 1).last() == sorted@[i as int]@);
        let e = sast_entry_string(i + 1, &sorted[i]);
        body.push_str(&e);
        i += 1;
    }
    assert(all.take(all.len() as int) =~= all);
    out.push_str(&body);
    out.push_str(BOTTOM);
    out
}

// ---- dependencies ------------------------------------------------------------------------

pub const SCA_TOP: &'static str =
    "\x1b[1m┌─ Strobes SCA Results ────────────────────────────────────────┐\x1b[0m\n";

/// What is known of a finding's reach.
pub open spec fn reach_badge(confidence: Seq<char>) -> Seq<char> {
    if confidence == "confirmed_reachable"@ {
        GREEN@ + "[CONFIRMED REACHABLE]"@ + RESET@
    } else if confidence == "likely_reachable"@ {
        "\x1b[33m"@ + "[LIKELY REACHABLE]"@ + RESET@
    } else if confidence == "not_analyzed"@ {
        DIM@ + "[NOT ANALYZED]"@ + RESET@
    } else {
        DIM@ + "[UNKNOWN]"@ + RESET@
    }
}

fn reach_badge_string(confidence: &str) -> (r: String)
    ensures
        r@ == reach_badge(confidence@),
{
    let mut s = String::new();
    if text::str_eq(confidence, "confirmed_reachable") {
        s = GREEN.to_owned();
        s.push_str("[CONFIRMED REACHABLE]");
    } else if text::str_eq(confidence, "likely_reachable") {
        s = "\x1b[33m".to_owned();
        s.push_str("[LIKELY REACHABLE]");
    } else if text::str_eq(confidence, "not_analyzed") {
        s = DIM.to_owned();
        s.push_str("[NOT ANALYZED]");
    } else {
        s = DIM.to_owned();
        s.push_str("[UNKNOWN]");
    }
    s.push_str(RESET);
    s
}

/// How a package came in.
pub open spec fn via_text(via: Seq<Seq<char>>) -> Seq<char> {
    if via.len() == 0 {
        "direct"@
    } else {
        "via "@ + pieces::join(via, " -> "@)
    }
}

fn via_string(via: &Vec<String>) -> (r: String)
    ensures
        r@ == via_text(text::views(via@)),
{
    if via.len() == 0 {
        "direct".to_owned()
    } else {
        let mut s = "via ".to_owned();
        let j = pieces::str_join(via, " -> ");
        s.push_str(&j);
        s
    }
}

/// One finding of a dependency scan.
pub open spec fn sca_entry(number: nat, f: findings::ScaFindingView) -> Seq<char> {
    head_row(number, f.severity, f.cve_id) + row("      "@ + BOLD@ + f.title + RESET@) + row(
        "      "@ + DIM@ + f.package + "@"@ + f.version + "  "@ + via_text(f.via) + "  "@
            + reach_badge(f.reachability_confidence) + RESET@,
    ) + dim_row("Fix: upgrade to "@, f.fix_version) + text_rows(wrapped(f.description, 66))
        + dim_row("AI: "@, text::prefix(f.ai_reasoning, 160))
}

pub open spec fn sca_entries(v: Seq<findings::ScaFindingView>) -> Seq<char>
    decreases v.len(),
{
    if v.len() == 0 {
        Seq::empty()
    } else {
        sca_entries(v.drop_last()) + sca_entry(v.len(), v.last())
    }
}

/// The number of findings that can be reached, among the first `n`.
pub open spec fn reachable_count(v: Seq<findings::ScaFindingView>, n: int) -> nat
    decreases n,
{
    if n <= 0 {
        0
    } else {
        reachable_count(v, n - 1) + (if v[n - 1].reachable {
            1nat
        } else {
            0
        })
    }
}

/// The summary of a dependency scan over `total` known vulnerabilities.
/// `shown` are the findings to list; without the agent nothing is said of
/// their reach.
pub open spec fn sca_summary(
    total: nat,
    v: Seq<findings::ScaFindingView>,
    shown: Seq<findings::ScaFindingView>,
    target: Seq<char>,
    secs: nat,
    skip_ai: bool,
) -> Seq<char> {
    let top = "\n"@ + SCA_TOP@ + fact("  Target  : "@, target) + fact("  Time    : "@, seconds(secs))
        + fact("  CVEs    : "@, bold_number(total, " found in dependencies"@)) + (if skip_ai {
        Seq::empty()
    } else {
        fact(
            "  Impact  : "@,
            bold_number(reachable_count(v, v.len() as int), " confirmed/likely reachable"@),
        )
    }) + MIDDLE@ + count_rows::<ScaFinding>(shown, false);
    if shown.len() == 0 {
        top + clean_row("No impactful vulnerabilities found."@) + BOTTOM@
    } else {
        top + MIDDLE@ + sca_entries(severity::ranked::<ScaFinding>(shown)) + BOTTOM@
    }
}

fn sca_entry_string(number: usize, f: &ScaFinding) -> (r: String)
    ensures
        r@ == sca_entry(number as nat, f@),
{
    let mut out = head_row_string(number, &f.severity, &f.cve_id);
    let mut a = "      ".to_owned();
    a.push_str(BOLD);
    a.push_str(&f.title);
    a.push_str(RESET);
    push_row(&mut out, &a);
    let mut s = "      ".to_owned();
    s.push_str(DIM);
    s.push_str(&f.package);
    s.push_str("@");
    s.push_str(&f.version);
    s.push_str("  ");
    let via = via_string(&f.via);
    s.push_str(&via);
    s.push_str("  ");
    let badge = reach_badge_string(&f.reachability_confidence);
    s.push_str(&badge);
    s.push_str(RESET);
    push_row(&mut out, &s);
    let x = dim_row_string("Fix: upgrade to ", &f.fix_version);
    out.push_str(&x);
    let lines = wrap_text(&f.description, 66);
    let d = text_rows_string(&lines);
    out.push_str(&d);
    let why = text::str_prefix(&f.ai_reasoning, 160);
    let y = dim_row_string("AI: ", &why);
    out.push_str(&y);
    out
}

fn count_reachable(v: &Vec<ScaFinding>) -> (r: usize)
    ensures
        r == reachable_count(severity::seen(v@), v@.len() as int),
{
    let ghost all = severity::seen(v@);
    let mut n: usize = 0;
    let mut i: usize = 0;
    while i < v.len()
        invariant
            i <= v@.len(),
            n <= i,
            all == severity::seen(v@),
            n == reachable_count(all, i as int),
        decreases v@.len() - i,
    {
        assert(all[i as int] == v@[i as int]@);
        if v[i].reachable {
            n += 1;
        }
        i += 1;
    }
    n
}

/// The summary of a dependency scan, the most severe findings first.
pub fn print_sca_summary(
    total: usize,
    v: &Vec<ScaFinding>,
    shown: &Vec<ScaFinding>,
    target: &str,
    secs: u64,
    skip_ai: bool,
) -> (r: String)
    ensures
        r@ == sca_summary(
            total as nat,
            severity::seen(v@),
            severity::seen(shown@),
            target@,
            secs as nat,
            skip_ai,
        ),
{
    let mut out = "\n".to_owned();
    out.push_str(SCA_TOP);
    push_fact(&mut out, "  Target  : ", target);
    let t = seconds_string(secs);
    push_fact(&mut out, "  Time    : ", &t);
    let n = bold_number_string(total, " found in dependencies");
    push_fact(&mut out, "  CVEs    : ", &n);
    let ghost head = out@;
    if !skip_ai {
        let k = bold_number_string(count_reachable(v), " confirmed/likely reachable");
        push_fact(&mut out, "  Impact  : ", &k);
    } else {
        assert(head + Seq::<char>::empty() =~= head);
    }
    out.push_str(MIDDLE);
    let c = count_rows_string(shown, false);
    out.push_str(&c);
    if shown.len() == 0 {
        push_clean(&mut out, "No impactful vulnerabilities found.");
        return out;
    }
    out.push_str(MIDDLE);
    let sorted = severity::rank(shown);
    let ghost all = severity::seen(sorted@);
    let mut body = String::new();
    let mut i: usize = 0;
    while i < sorted.len()
        invariant
            i <= sorted@.len(),
            all == severity::seen(sorted@),
            body@ == sca_entries(all.take(i as int)),
        decreases sorted@.len() - i,
    {
        assert(all.take(i + 1).drop_last() =~= all.take(i as int));
        assert(all.take(i + 1).last() == sorted@[i as int]@);
        let e = sca_entry_string(i + 1, &sorted[i]);
        body.push_str(&e);
        i += 1;
    }
    assert(all.take(all.len() as int) =~= all);
    out.push_str(&body);
    out.push_str(BOTTOM);
    out
}

// ---- infrastructure ------------------------------------------------------------------------

pub const IAC_TOP: &'static str =
    "\x1b[1m┌─ Strobes IaC Scan Results ───────────────────────────────────┐\x1b[0m\n";

/// One finding of an infrastructure scan.
pub open spec fn iac_entry(number: nat, f: findings::IacFindingView) -> Seq<char> {
    head_row(number, f.severity, f.title) + row(
        if f.resource.len() > 0 {
            "      "@ + DIM@ + "resource: "@ + f.resource + "  |  "@ + place(f.file, f.line) + RESET@
        } else {
            "      "@ + DIM@ + place(f.file, f.line) + RESET@
        },
    ) + text_rows(wrapped(f.description, 66)) + dim_row("Fix: "@, text::prefix(f.fix, 140))
}

pub open spec fn iac_entries(v: Seq<findings::IacFindingView>) -> Seq<char>
    decreases v.len(),
{
    if v.len() == 0 {
        Seq::empty()
    } else {
        iac_entries(v.drop_last()) + iac_entry(v.len(), v.last())
    }
}

/// The summary of an infrastructure scan, in the order of the findings.
pub open spec fn iac_summary(
    v: Seq<findings::IacFindingView>,
    target: Seq<char>,
    secs: nat,
    files: nat,
) -> Seq<char> {
    let top = "\n"@ + IAC_TOP@ + fact("  Target  : "@, target) + fact("  Time    : "@, seconds(secs))
        + fact("  Files   : "@, bold_number(files, " IaC file(s) scanned"@)) + MIDDLE@;
    if v.len() == 0 {
        top + clean_row("No misconfigurations found."@) + BOTTOM@
    } else {
        top + count_rows::<IacFinding>(v, false) + MIDDLE@ + iac_entries(v) + BOTTOM@
    }
}

fn iac_entry_string(number: usize, f: &IacFinding) -> (r: String)
    ensures
        r@ == iac_entry(number as nat, f@),
{
    let mut out = head_row_string(number, &f.severity, &f.title);
    let mut s = "      ".to_owned();
    s.push_str(DIM);
    if text::char_count(&f.resource) > 0 {
        s.push_str("resource: ");
        s.push_str(&f.resource);
        s.push_str("  |  ");
    }
    let p = place_string(&f.file, f.line);
    s.push_str(&p);
    s.push_str(RESET);
    push_row(&mut out, &s);
    let lines = wrap_text(&f.description, 66);
    let d = text_rows_string(&lines);
    out.push_str(&d);
    let fix = text::str_prefix(&f.fix, 140);
    let x = dim_row_string("Fix: ", &fix);
    out.push_str(&x);
    out
}

/// The summary of an infrastructure scan, in the order of the findings.
pub fn print_iac_summary(v: &Vec<IacFinding>, target: &str, secs: u64, files: usize) -> (r: String)
    ensures
        r@ == iac_summary(severity::seen(v@), target@, secs as nat, files as nat),
{
    let mut out = "\n".to_owned();
    out.push_str(IAC_TOP);
    push_fact(&mut out, "  Target  : ", target);
    let t = seconds_string(secs);
    push_fact(&mut out, "  Time    : ", &t);
    let n = bold_number_string(files, " IaC file(s) scanned");
    push_fact(&mut out, "  Files   : ", &n);
    out.push_str(MIDDLE);
    if v.len() == 0 {
        push_clean(&mut out, "No misconfigurations found.");
        return out;
    }
    let c = count_rows_string(v, false);
    out.push_str(&c);
    out.push_str(MIDDLE);
    let ghost all = severity::seen(v@);
    let mut body = String::new();
    let mut i: usize = 0;
    while i < v.len()
        invariant
            i <= v@.len(),
            all == severity::seen(v@),
            body@ == iac_entries(all.take(i as int)),
        decreases v@.len() - i,
    {
        assert(all.take(i + 1).drop_last() =~= all.take(i as int));
        assert(all.take(i + 1).last() == v@[i as int]@);
        let e = iac_entry_string(i + 1, &v[i]);
        body.push_str(&e);
        i += 1;
    }
    assert(all.take(all.len() as int) =~= all);
    out.push_str(&body);
    out.push_str(BOTTOM);
    out
}

// ---- running applications ----------------------------------------------------------------------

pub const DAST_TOP: &'static str =
    "\x1b[1m┌─ Strobes DAST Scan Results ─────────────────────────────────┐\x1b[0m\n";

/// One finding of a scan of a running application.
pub open spec fn dast_entry(number: nat, f: findings::DastFindingView) -> Seq<char> {
    head_row(number, f.severity, f.title) + (if f.url.len() > 0 {
        row("      "@ + DIM@ + f.method + " "@ + f.url + RESET@)
    } else {
        Seq::empty()
    }) + dim_row("param: "@, f.parameter) + text_rows(wrapped(f.description, 68)) + dim_row(
        "evidence: "@,
        text::prefix(f.evidence, 72),
    ) + dim_row("Fix: "@, f.fix)
}

pub open spec fn dast_entries(v: Seq<findings::DastFindingView>) -> Seq<char>
    decreases v.len(),
{
    if v.len() == 0 {
        Seq::empty()
    } else {
        dast_entries(v.drop_last()) + dast_entry(v.len(), v.last())
    }
}

/// The summary of a scan of a running application.
pub open spec fn dast_summary(v: Seq<findings::DastFindingView>, target: Seq<char>, secs: nat) -> Seq<
    char,
> {
    let top = "\n"@ + DAST_TOP@ + fact("  Target  : "@, target) + fact("  Time    : "@, seconds(secs))
        + fact("  Total   : "@, bold_number(v.len(), " finding(s)"@)) + MIDDLE@ + count_rows::<
        DastFinding,
    >(v, false);
    if v.len() == 0 {
        top + clean_row("No findings — clean scan."@) + BOTTOM@
    } else {
        top + MIDDLE@ + dast_entries(severity::ranked::<DastFinding>(v)) + BOTTOM@
    }
}

fn dast_entry_string(number: usize, f: &DastFinding) -> (r: String)
    ensures
        r@ == dast_entry(number as nat, f@),
{
    let mut out = head_row_string(number, &f.severity, &f.title);
    let ghost head = out@;
    if text::char_count(&f.url) > 0 {
        let mut s = "      ".to_owned();
        s.push_str(DIM);
        s.push_str(&f.method);
        s.push_str(" ");
        s.push_str(&f.url);
        s.push_str(RESET);
        push_row(&mut out, &s);
    } else {
        assert(head + Seq::<char>::empty() =~= head);
    }
    let p = dim_row_string("param: ", &f.parameter);
    out.push_str(&p);
    let lines = wrap_text(&f.description, 68);
    let d = text_rows_string(&lines);
    out.push_str(&d);
    let ev = text::str_prefix(&f.evidence, 72);
    let e = dim_row_string("evidence: ", &ev);
    out.push_str(&e);
    let x = dim_row_string("Fix: ", &f.fix);
    out.push_str(&x);
    out
}

/// The summary of a scan of a running application, the most severe findings
/// first.
pub fn print_dast_summary(v: &Vec<DastFinding>, target: &str, secs: u64) -> (r: String)
    ensures
        r@ == dast_summary(severity::seen(v@), target@, secs as nat),
{
    let mut out = "\n".to_owned();
    out.push_str(DAST_TOP);
    push_fact(&mut out, "  Target  : ", target);
    let t = seconds_string(secs);
    push_fact(&mut out, "  Time    : ", &t);
    let n = bold_number_string(v.len(), " finding(s)");
    push_fact(&mut out, "  Total   : ", &n);
    out.push_str(MIDDLE);
    let c = count_rows_string(v, false);
    out.push_str(&c);
    if v.len() == 0 {
        push_clean(&mut out, "No findings — clean scan.");
        return out;
    }
    out.push_str(MIDDLE);
    let sorted = severity::rank(v);
    let ghost all = severity::seen(sorted@);
    let mut body = String::new();
    let mut i: usize = 0;
    while i < sorted.len()
        invariant
            i <= sorted@.len(),
            all == severity::seen(sorted@),
            body@ == dast_entries(all.take(i as int)),
        decreases sorted@.len() - i,
    {
        assert(all.take(i + 1).drop_last() =~= all.take(i as int));
        assert(all.take(i + 1).last() == sorted@[i as int]@);
        let e = dast_entry_string(i + 1, &sorted[i]);
        body.push_str(&e);
        i += 1;
    }
    assert(all.take(all.len() as int) =~= all);
    out.push_str(&body);
    out.push_str(BOTTOM);
    out
}

} // verus!
