//! A scan by the agent: what is copied, what is shown while it runs, how it
//! ends, and where its answer stands.

use vstd::prelude::*;
use crate::digits;
use crate::pieces;
use crate::pulse;
use crate::pulse::{AppEvent, StreamItem};
use crate::text;

verus! {

broadcast use {
    vstd::seq::group_seq_axioms,
    vstd::string::group_string_axioms,
    text::views_push,
    text::views_empty,
};

// ---- the answer ----------------------------------------------------------------------

/// What stands in the first fenced JSON block of a text: up to the closing
/// fence, or to the end where there is none.
pub open spec fn fenced_block(t: Seq<char>) -> Option<Seq<char>> {
    match text::find(t, "```json"@) {
        None => None,
        Some(i) => {
            let after = t.skip(i + 7);
            match text::find(after, "```"@) {
                Some(e) => Some(pieces::trim(after.take(e))),
                None => Some(pieces::trim(after)),
            }
        },
    }
}

/// A text without a fenced block whose last closing brace stands before its
/// first opening one has no block at all.
pub open spec fn braces_in_order(t: Seq<char>) -> bool {
    text::find(t, "```json"@) is Some || match (
        pieces::index_of(t, '{'),
        pieces::last_index_of(t, '}'),
    ) {
        (Some(a), Some(b)) => a <= b + 1,
        _ => true,
    }
}

/// Where the findings stand in an answer: in its fenced block, else between
/// the first and the last brace.
pub open spec fn answer_block(t: Seq<char>) -> Option<Seq<char>> {
    if text::find(t, "```json"@) is Some {
        fenced_block(t)
    } else {
        match pieces::index_of(t, '{') {
            None => None,
            Some(a) => Some(
                t.subrange(
                    a,
                    match pieces::last_index_of(t, '}') {
                        Some(b) => b + 1,
                        None => t.len() as int,
                    },
                ),
            ),
        }
    }
}

/// What stands in the first fenced JSON block.
pub fn fenced(t: &str) -> (r: Option<String>)
    ensures
        text::opt_view(r) == fenced_block(t@),
{
    proof {
        reveal_strlit("```json");
    }
    let v = text::chars_of(t);
    match text::str_find(t, "```json") {
        None => None,
        Some(i) => {
            let n: usize = v.len();
            let after = text::string_range(&v, i + 7, n);
            assert(after@ =~= t@.skip(i + 7));
            match text::str_find(&after, "```") {
                Some(e) => {
                    let inner = text::str_prefix(&after, e);
                    assert(inner@ =~= after@.take(e as int));
                    Some(pieces::str_trim(&inner))
                },
                None => Some(pieces::str_trim(&after)),
            }
        },
    }
}

/// Whether an answer has its braces in order.
pub fn has_ordered_braces(t: &str) -> (r: bool)
    ensures
        r == braces_in_order(t@),
{
    if text::str_find(t, "```json").is_some() {
        return true;
    }
    let v = text::chars_of(t);
    let n: usize = v.len();
    match (pieces::chars_index_from(&v, '{', 0), pieces::chars_last_index(&v, '}')) {
        (Some(a), Some(b)) => a <= b + 1,
        _ => true,
    }
}

/// Where the findings stand in an answer.
pub fn answer(t: &str) -> (r: Option<String>)
    requires
        braces_in_order(t@),
    ensures
        text::opt_view(r) == answer_block(t@),
{
    if text::str_find(t, "```json").is_some() {
        return fenced(t);
    }
    let v = text::chars_of(t);
    match pieces::chars_index_from(&v, '{', 0) {
        None => None,
        Some(a) => {
            let n: usize = v.len();
            let end: usize = match pieces::chars_last_index(&v, '}') {
                Some(b) => b + 1,
                None => n,
            };
            Some(text::string_range(&v, a, end))
        },
    }
}

// ---- what is copied --------------------------------------------------------------------

/// Directories that are never worth reading.
pub const SAST_SKIP_DIRS: [&'static str; 20] = [
    ".git",
    ".svn",
    ".hg",
    "node_modules",
    "__pycache__",
    ".pytest_cache",
    "target",
    "dist",
    "build",
    ".next",
    ".nuxt",
    "vendor",
    "venv",
    ".venv",
    "env",
    ".env",
    ".tox",
    "coverage",
    ".nyc_output",
    ".cache",
];

/// Kinds of files that are never worth reading.
pub const SAST_SKIP_EXTS: [&'static str; 36] = [
    "png",
    "jpg",
    "jpeg",
    "gif",
    "svg",
    "ico",
    "webp",
    "bmp",
    "pdf",
    "zip",
    "tar",
    "gz",
    "bz2",
    "xz",
    "7z",
    "rar",
    "exe",
    "dll",
    "so",
    "dylib",
    "a",
    "o",
    "wasm",
    "mp3",
    "mp4",
    "wav",
    "ogg",
    "flac",
    "avi",
    "mov",
    "ttf",
    "otf",
    "woff",
    "woff2",
    "eot",
    "lock",
];

/// The largest file that is copied, in bytes.
pub const MAX_FILE: u64 = 524288;

/// A word is one of a list.
pub open spec fn listed(list: Seq<&'static str>, word: Seq<char>) -> bool {
    exists|i: int| 0 <= i < list.len() && (#[trigger] list[i])@ == word
}

/// Whether a word is one of a list.
pub fn is_listed(list: &[&'static str], word: &str) -> (r: bool)
    ensures
        r == listed(list@, word@),
{
    let mut i: usize = 0;
    while i < list.len()
        invariant
            i <= list@.len(),
            forall|k: int| 0 <= k < i ==> (#[trigger] list@[k])@ != word@,
        decreases list@.len() - i,
    {
        if text::str_eq(list[i], word) {
            assert(list@[i as int]@ == word@);
            return true;
        }
        i += 1;
    }
    false
}

/// What `glob::Pattern::new` and `Pattern::matches` say of a pattern and a
/// name; false for a pattern that is not valid.
pub uninterp spec fn glob_matches(pattern: Seq<char>, name: Seq<char>) -> bool;

/// A pattern that means the same on every machine: it holds no separator of
/// any machine's paths and no recursive wildcard.
pub open spec fn is_portable(pattern: Seq<char>) -> bool {
    !text::contains(pattern, "**"@) && !text::contains(pattern, "/"@) && !text::contains(
        pattern,
        "\\"@,
    )
}

/// A pattern and a name whose match is the same on every machine: the pattern
/// is portable, or it holds no backslash and the name is no path.
pub open spec fn is_settled(pattern: Seq<char>, name: Seq<char>) -> bool {
    is_portable(pattern) || (!text::contains(pattern, "\\"@) && !text::contains(name, "/"@)
        && !text::contains(name, "\\"@))
}

/// Calls `glob::Pattern::new`, and `matches` on the pattern where it is valid.
/// Which names a pattern matches is only named. Where a pattern that is not
/// portable holds a backslash or is matched against a path nothing is said: what
/// it matches depends on the separators of the machine.
#[verifier::external_body]
fn glob_match(pattern: &str, name: &str) -> (r: bool)
    ensures
        is_settled(pattern@, name@) ==> r == glob_matches(pattern@, name@),
{
    glob::Pattern::new(pattern).map(|p| p.matches(name)).unwrap_or(false)
}

/// One of the first `n` patterns matches a name.
pub open spec fn any_matches(patterns: Seq<Seq<char>>, name: Seq<char>, n: int) -> bool
    decreases n,
{
    n > 0 && (any_matches(patterns, name, n - 1) || glob_matches(patterns[n - 1], name))
}

/// What every pattern says of a name is the same on every machine.
pub open spec fn all_settled(patterns: Seq<Seq<char>>, name: Seq<char>) -> bool {
    forall|i: int| 0 <= i < patterns.len() ==> is_settled(#[trigger] patterns[i], name)
}

/// One of the first `n` answers is yes.
pub open spec fn any_yes(matched: Seq<bool>, n: int) -> bool
    decreases n,
{
    n > 0 && (any_yes(matched, n - 1) || matched[n - 1])
}

/// Whether an entry of a directory is left out of the copy, given which of the
/// user's patterns match it: it is known as noise, or one of them does.
pub fn leaves_out(name: &str, matched: &Vec<bool>) -> (r: bool)
    ensures
        r == (listed(SAST_SKIP_DIRS@, name@) || any_yes(matched@, matched@.len() as int)),
{
    let noise = SAST_SKIP_DIRS;
    if is_listed(&noise, name) {
        return true;
    }
    let mut found = false;
    let mut i: usize = 0;
    while i < matched.len()
        invariant
            i <= matched@.len(),
            found == any_yes(matched@, i as int),
        decreases matched@.len() - i,
    {
        if matched[i] {
            found = true;
        }
        i += 1;
    }
    found
}

/// Whether an entry of a directory is left out of the copy: it is known as
/// noise, or a pattern of the user's matches it. Where what a pattern says
/// depends on the machine, the other patterns count all the same.
pub fn is_left_out(name: &str, patterns: &Vec<String>) -> (r: bool)
    ensures
        all_settled(text::views(patterns@), name@) ==> r == (listed(SAST_SKIP_DIRS@, name@)
            || any_matches(text::views(patterns@), name@, patterns@.len() as int)),
        listed(SAST_SKIP_DIRS@, name@) ==> r,
        forall|k: int|
            0 <= k < patterns@.len() && is_settled(#[trigger] patterns@[k]@, name@) && glob_matches(
                patterns@[k]@,
                name@,
            ) ==> r,
        r ==> listed(SAST_SKIP_DIRS@, name@) || exists|k: int|
            0 <= k < patterns@.len() && (is_settled(#[trigger] patterns@[k]@, name@)
                ==> glob_matches(patterns@[k]@, name@)),
{
    let ghost all = text::views(patterns@);
    let mut matched: Vec<bool> = Vec::new();
    let mut i: usize = 0;
    while i < patterns.len()
        invariant
            i <= patterns@.len(),
            all == text::views(patterns@),
            matched@.len() == i,
            forall|k: int|
                #![trigger matched@[k]]
                #![trigger patterns@[k]@]
                0 <= k < i && is_settled(patterns@[k]@, name@) ==> matched@[k] == glob_matches(
                    patterns@[k]@,
                    name@,
                ),
        decreases patterns@.len() - i,
    {
        matched.push(glob_match(&patterns[i], name));
        i += 1;
    }
    proof {
        let n = matched@.len() as int;
        assert forall|k: int| 0 <= k < n implies #[trigger] all[k] == patterns@[k]@ by {}
        if all_settled(all, name@) {
            assert forall|k: int| 0 <= k < n implies #[trigger] matched@[k] == glob_matches(
                all[k],
                name@,
            ) by {
                assert(is_settled(all[k], name@));
            }
            yes_where_it_matches(matched@, all, name@, n);
        }
        any_yes_iff(matched@, n);
    }
    leaves_out(name, &matched)
}

proof fn any_yes_iff(matched: Seq<bool>, n: int)
    requires
        0 <= n <= matched.len(),
    ensures
        any_yes(matched, n) <==> exists|k: int| 0 <= k < n && #[trigger] matched[k],
    decreases n,
{
    if n > 0 {
        any_yes_iff(matched, n - 1);
    }
}

proof fn yes_where_it_matches(
    matched: Seq<bool>,
    patterns: Seq<Seq<char>>,
    name: Seq<char>,
    n: int,
)
    requires
        0 <= n <= matched.len(),
        forall|k: int| 0 <= k < n ==> #[trigger] matched[k] == glob_matches(patterns[k], name),
    ensures
        any_yes(matched, n) == any_matches(patterns, name, n),
    decreases n,
{
    if n > 0 {
        yes_where_it_matches(matched, patterns, name, n - 1);
    }
}

/// What becomes of a file.
#[derive(Clone, Copy, Debug, PartialEq, Eq, Structural)]
pub enum CopyDecision {
    Skip,
    Copy,
    /// The copy would grow beyond its limit.
    Full,
}

/// What becomes of a file with that extension and size, once so many bytes
/// are copied: noise and large files are skipped.
pub open spec fn copy_of(ext: Seq<char>, size: u64, copied: u64, limit: u64) -> CopyDecision {
    if listed(SAST_SKIP_EXTS@, text::lowercase(ext)) || size > MAX_FILE {
        CopyDecision::Skip
    } else if copied + size > limit {
        CopyDecision::Full
    } else {
        CopyDecision::Copy
    }
}

/// What becomes of a file.
pub fn copy_decision(ext: &str, size: u64, copied: u64, limit: u64) -> (r: CopyDecision)
    ensures
        r == copy_of(ext@, size, copied, limit),
{
    let low = text::to_lowercase(ext);
    let noise = SAST_SKIP_EXTS;
    if is_listed(&noise, &low) {
        return CopyDecision::Skip;
    }
    if size > MAX_FILE {
        return CopyDecision::Skip;
    }
    if size > limit || copied > limit - size {
        CopyDecision::Full
    } else {
        CopyDecision::Copy
    }
}

/// Why a copy stops at its limit.
pub fn copy_limit_error(limit: u64) -> (r: String)
    ensures
        r@ == "sandbox size limit reached ("@ + digits::dec((limit / 1_000_000) as nat)
            + " MB) — use --max-mb to increase or --exclude to narrow scope"@,
{
    let mut s = "sandbox size limit reached (".to_owned();
    let n = digits::u64_to_string(limit / 1_000_000);
    s.push_str(&n);
    s.push_str(" MB) — use --max-mb to increase or --exclude to narrow scope");
    s
}

/// A copy never holds more than its limit.
pub proof fn copies_stay_within_the_limit(ext: Seq<char>, size: u64, copied: u64, limit: u64)
    requires
        copied <= limit,
    ensures
        copy_of(ext, size, copied, limit) == CopyDecision::Copy ==> copied + size <= limit,
        copy_of(ext, size, copied, limit) == CopyDecision::Copy ==> size <= MAX_FILE,
{
}

// ---- names -------------------------------------------------------------------------------

/// A name with every character that a directory name should not have replaced
/// by an underscore.
pub open spec fn safe_name(s: Seq<char>) -> Seq<char> {
    s.map_values(
        |c: char|
            if text::is_alphanumeric(c) || c == '-' || c == '_' {
                c
            } else {
                '_'
            },
    )
}

/// A name that a directory can have.
pub fn safe_name_of(s: &str) -> (r: String)
    ensures
        r@ == safe_name(s@),
{
    let v = text::chars_of(s);
    let ghost want = safe_name(s@);
    let mut out = String::new();
    assert(want.take(0) =~= Seq::empty());
    let mut i: usize = 0;
    while i < v.len()
        invariant
            i <= v@.len(),
            v@ == s@,
            want == safe_name(s@),
            out@ == want.take(i as int),
        decreases v@.len() - i,
    {
        let c = v[i];
        if text::char_is_alphanumeric(c) || c == '-' || c == '_' {
            out.push(c);
        } else {
            out.push('_');
        }
        assert(want.take(i + 1) =~= want.take(i as int).push(want[i as int]));
        i += 1;
    }
    assert(want.take(want.len() as int) =~= want);
    out
}

/// The kinds of scan.
#[derive(Clone, Copy, Debug, PartialEq, Eq, Structural)]
pub enum ScanKind {
    Sast,
    Sca,
    Container,
    Iac,
    Dast,
}

/// The name of a scan's directory: the same for every scan of a target.
pub fn sandbox_id(prefix: &str, target: &str) -> (r: String)
    ensures
        r@ == prefix@ + "-"@ + safe_name(target@),
{
    let mut s = prefix.to_owned();
    s.push_str("-");
    let n = safe_name_of(target);
    s.push_str(&n);
    s
}

/// The names of the workspace and the thread that a scan makes.
pub open spec fn scan_titles(k: ScanKind, target: Seq<char>) -> (Seq<char>, Seq<char>) {
    match k {
        ScanKind::Sast => ("SAST: "@ + target, "SAST scan: "@ + target),
        ScanKind::Sca => ("SCA: "@ + target, "SCA reachability: "@ + target),
        ScanKind::Container => ("Container: "@ + target, "Container scan: "@ + target),
        ScanKind::Iac => ("IaC: "@ + target, "IaC scan: "@ + target),
        ScanKind::Dast => ("DAST: "@ + target, "DAST scan: "@ + target),
    }
}

fn join_two(a: &str, b: &str) -> (r: String)
    ensures
        r@ == a@ + b@,
{
    let mut s = a.to_owned();
    s.push_str(b);
    s
}

/// The names of the workspace and the thread that a scan makes.
pub fn titles(k: ScanKind, target: &str) -> (r: (String, String))
    ensures
        (r.0@, r.1@) == scan_titles(k, target@),
{
    match k {
        ScanKind::Sast => (join_two("SAST: ", target), join_two("SAST scan: ", target)),
        ScanKind::Sca => (join_two("SCA: ", target), join_two("SCA reachability: ", target)),
        ScanKind::Container => (
            join_two("Container: ", target),
            join_two("Container scan: ", target),
        ),
        ScanKind::Iac => (join_two("IaC: ", target), join_two("IaC scan: ", target)),
        ScanKind::Dast => (join_two("DAST: ", target), join_two("DAST scan: ", target)),
    }
}

/// The short name of an image: what stands behind the last slash, up to its
/// tag.
pub open spec fn image_name(image: Seq<char>) -> Seq<char> {
    pieces::split_char(pieces::split_char(image, '/').last(), ':')[0]
}

/// The short name of an image.
pub fn image_label(image: &str) -> (r: String)
    ensures
        r@ == image_name(image@),
{
    let parts = pieces::str_split_char(image, '/');
    proof {
        pieces::split_char_is_not_empty(image@, '/');
    }
    let n: usize = parts.len();
    assert(text::views(parts@).last() == parts@[n - 1]@);
    let tail = pieces::str_split_char(&parts[n - 1], ':');
    proof {
        pieces::split_char_is_not_empty(parts@[n - 1]@, ':');
        assert(text::views(tail@)[0] == tail@[0]@);
    }
    tail[0].clone()
}

/// The address without slashes at its end, and the name without its scheme.
pub open spec fn dast_target(url: Seq<char>) -> (Seq<char>, Seq<char>) {
    let t = pieces::trim_end_char(url, '/');
    (t, pieces::trim_start_str(pieces::trim_start_str(t, "https://"@), "http://"@))
}

/// The address without slashes at its end, and the name without its scheme.
pub fn dast_names(url: &str) -> (r: (String, String))
    ensures
        (r.0@, r.1@) == dast_target(url@),
{
    let t = pieces::str_trim_end_char(url, '/');
    let a = pieces::str_trim_start_str(&t, "https://");
    let b = pieces::str_trim_start_str(&a, "http://");
    (t, b)
}

// ---- the live display ------------------------------------------------------------------------

/// How many messages are shown.
pub const SAST_MSG_ROWS: usize = 3;

/// How many lines the display takes.
pub const SAST_DISPLAY_HEIGHT: usize = 15;

/// The cells of the progress bar.
pub const BAR_WIDTH: usize = 38;

pub const SAST_LOGO: [&'static str; 6] = [
    " ███████╗████████╗██████╗  ██████╗ ██████╗ ███████╗███████╗",
    " ██╔════╝╚══██╔══╝██╔══██╗██╔═══██╗██╔══██╗██╔════╝██╔════╝",
    " ███████╗   ██║   ██████╔╝██║   ██║██████╔╝█████╗  ███████╗",
    " ╚════██║   ██║   ██╔══██╗██║   ██║██╔══██╗██╔══╝  ╚════██║",
    " ███████║   ██║   ██║  ██║╚██████╔╝██████╔╝███████╗███████║",
    " ╚══════╝   ╚═╝   ╚═╝  ╚═╝ ╚═════╝ ╚═════╝ ╚══════╝╚══════╝",
];

/// The signs of the spinner, in turn.
pub const SAST_SPINNER: [&'static str; 8] = ["⣾", "⣽", "⣻", "⢿", "⡿", "⣟", "⣯", "⣷"];

/// The display of a scan that is running.
pub struct ScanDisplay {
    pub target: String,
    pub file_count: u64,
    /// The last messages, the oldest first.
    pub messages: Vec<String>,
    pub spinner_idx: usize,
    pub first_render: bool,
}

pub struct DisplayView {
    pub target: Seq<char>,
    pub file_count: u64,
    pub messages: Seq<Seq<char>>,
    pub spinner_idx: usize,
    pub first_render: bool,
}

impl View for ScanDisplay {
    type V = DisplayView;

    open spec fn view(&self) -> DisplayView {
        DisplayView {
            target: self.target@,
            file_count: self.file_count,
            messages: text::views(self.messages@),
            spinner_idx: self.spinner_idx,
            first_render: self.first_render,
        }
    }
}

/// The last entries of a list, no more than are shown.
pub open spec fn last_shown(v: Seq<Seq<char>>) -> Seq<Seq<char>> {
    if v.len() > SAST_MSG_ROWS {
        v.skip(v.len() - SAST_MSG_ROWS)
    } else {
        v
    }
}

/// A message cut to the width of the display.
pub open spec fn message_line(m: Seq<char>) -> Seq<char> {
    "  \x1b[2m"@ + text::truncated(m, 76) + "\x1b[0m\n"@
}

/// The lines of the first `n` message rows; a row without a message is empty.
pub open spec fn message_lines(v: Seq<Seq<char>>, n: int) -> Seq<char>
    decreases n,
{
    if n <= 0 {
        Seq::empty()
    } else {
        message_lines(v, n - 1) + (if n - 1 < v.len() {
            message_line(v[n - 1])
        } else {
            "\n"@
        })
    }
}

/// The lines of the logo, the last one with the subtitle.
pub open spec fn logo_lines(n: int) -> Seq<char>
    decreases n,
{
    if n <= 0 {
        Seq::empty()
    } else {
        logo_lines(n - 1) + ("\x1b[1;32m"@ + SAST_LOGO@[n - 1]@ + (if n == 6 {
            "\x1b[0m  \x1b[2mAI Security Scanner\x1b[0m\n"@
        } else {
            "\x1b[0m\n"@
        }))
    }
}

/// What takes the display off the screen.
pub open spec fn erasing() -> Seq<char> {
    pieces::repeat("\x1b[A\x1b[2K"@, SAST_DISPLAY_HEIGHT as nat)
}

/// The row with target, time and files; `size` is the size of the files as
/// text.
pub open spec fn stats_line(s: DisplayView, secs: nat, size: Seq<char>) -> Seq<char> {
    "  \x1b[2mtarget\x1b[0m  \x1b[1m"@ + digits::pad_right(s.target, ' ', 18)
        + "\x1b[0m  \x1b[2melapsed\x1b[0m  \x1b[1m"@ + digits::dec_padded(secs / 60, 2) + ":"@
        + digits::dec_padded(secs % 60, 2) + "\x1b[0m  \x1b[2mfiles\x1b[0m  "@ + digits::dec(
        s.file_count as nat,
    ) + " \x1b[2m("@ + size + " KB)\x1b[0m\n"@
}

/// The progress bar: so many cells are filled; `percent` is the share as text.
pub open spec fn bar_line(s: DisplayView, filled: nat, percent: Seq<char>) -> Seq<char> {
    "  \x1b[32m"@ + pieces::repeat("▓"@, filled) + "\x1b[2m"@ + pieces::repeat(
        "░"@,
        (BAR_WIDTH - filled) as nat,
    ) + "\x1b[0m  "@ + SAST_SPINNER@[s.spinner_idx as int % 8]@ + " \x1b[2m"@ + percent
        + "%  scanning…\x1b[0m\n"@
}

/// All that is written to show the display once more.
pub open spec fn display_text(
    s: DisplayView,
    secs: nat,
    size: Seq<char>,
    filled: nat,
    percent: Seq<char>,
) -> Seq<char> {
    (if s.first_render {
        Seq::empty()
    } else {
        erasing()
    }) + logo_lines(6) + "\n"@ + stats_line(s, secs, size) + "\n"@ + bar_line(s, filled, percent)
        + "\n"@ + message_lines(s.messages, SAST_MSG_ROWS as int)
}

fn logo_string() -> (r: String)
    ensures
        r@ == logo_lines(6),
{
    let logo = SAST_LOGO;
    let mut out = String::new();
    let mut i: usize = 0;
    while i < 6
        invariant
            i <= 6,
            logo == SAST_LOGO,
            out@ == logo_lines(i as int),
        decreases 6 - i,
    {
        let mut l = "\x1b[1;32m".to_owned();
        l.push_str(logo[i]);
        if i == 5 {
            l.push_str("\x1b[0m  \x1b[2mAI Security Scanner\x1b[0m\n");
        } else {
            l.push_str("\x1b[0m\n");
        }
        out.push_str(&l);
        i += 1;
    }
    out
}

impl ScanDisplay {
    pub fn new(target: &str, file_count: u64) -> (r: ScanDisplay)
        ensures
            r@ == (DisplayView {
                target: target@,
                file_count,
                messages: Seq::empty(),
                spinner_idx: 0,
                first_render: true,
            }),
    {
        ScanDisplay {
            target: target.to_owned(),
            file_count,
            messages: Vec::new(),
            spinner_idx: 0,
            first_render: true,
        }
    }

    /// Adds a message; the oldest make room.
    pub fn push(&mut self, msg: String)
        ensures
            final(self)@ == (DisplayView {
                messages: last_shown(old(self)@.messages.push(msg@)),
                ..old(self)@
            }),
    {
        let ghost all = self@.messages.push(msg@);
        self.messages.push(msg);
        let n: usize = self.messages.len();
        if n > SAST_MSG_ROWS {
            let mut kept: Vec<String> = Vec::new();
            let ghost want = last_shown(all);
            assert(want.take(0) =~= Seq::empty());
            let mut i: usize = n - SAST_MSG_ROWS;
            while i < self.messages.len()
                invariant
                    n - SAST_MSG_ROWS <= i <= n,
                    n == self.messages@.len(),
                    n > SAST_MSG_ROWS,
                    all == text::views(self.messages@),
                    want == all.skip(n - SAST_MSG_ROWS),
                    text::views(kept@) == want.take(i - (n - SAST_MSG_ROWS)),
                decreases n - i,
            {
                let ghost k = i - (n - SAST_MSG_ROWS);
                assert(want[k] == self.messages@[i as int]@);
                kept.push(self.messages[i].clone());
                assert(want.take(k + 1) =~= want.take(k).push(want[k]));
                i += 1;
            }
            assert(want.take(want.len() as int) =~= want);
            self.messages = kept;
        }
    }

    /// What shows the display once more, after so many seconds. The size of
    /// the files and the share of the time are given as text.
    pub fn render(&mut self, secs: u64, size: &str, filled: usize, percent: &str) -> (r: String)
        requires
            filled <= BAR_WIDTH,
            old(self)@.spinner_idx < usize::MAX,
        ensures
            r@ == display_text(old(self)@, secs as nat, size@, filled as nat, percent@),
            final(self)@ == (DisplayView {
                spinner_idx: (old(self)@.spinner_idx + 1) as usize,
                first_render: false,
                ..old(self)@
            }),
    {
        let mut out = String::new();
        if !self.first_render {
            out = self.erase();
        }
        let logo = logo_string();
        out.push_str(&logo);
        out.push_str("\n");
        let mut st = "  \x1b[2mtarget\x1b[0m  \x1b[1m".to_owned();
        let name = digits::str_pad_right(&self.target, ' ', 18);
        st.push_str(&name);
        st.push_str("\x1b[0m  \x1b[2melapsed\x1b[0m  \x1b[1m");
        let mm = digits::u64_to_string(secs / 60);
        let m2 = digits::str_pad_left(&mm, '0', 2);
        st.push_str(&m2);
        st.push_str(":");
        let ss = digits::u64_to_string(secs % 60);
        let s2 = digits::str_pad_left(&ss, '0', 2);
        st.push_str(&s2);
        st.push_str("\x1b[0m  \x1b[2mfiles\x1b[0m  ");
        let fc = digits::u64_to_string(self.file_count);
        st.push_str(&fc);
        st.push_str(" \x1b[2m(");
        st.push_str(size);
        st.push_str(" KB)\x1b[0m\n");
        out.push_str(&st);
        out.push_str("\n");
        let signs = SAST_SPINNER;
        let mut bar = "  \x1b[32m".to_owned();
        let a = pieces::str_repeat("▓", filled);
        bar.push_str(&a);
        bar.push_str("\x1b[2m");
        let b = pieces::str_repeat("░", BAR_WIDTH - filled);
        bar.push_str(&b);
        bar.push_str("\x1b[0m  ");
        bar.push_str(signs[self.spinner_idx % 8]);
        bar.push_str(" \x1b[2m");
        bar.push_str(percent);
        bar.push_str("%  scanning…\x1b[0m\n");
        out.push_str(&bar);
        out.push_str("\n");
        let rows = self.message_rows();
        out.push_str(&rows);
        self.spinner_idx = self.spinner_idx + 1;
        self.first_render = false;
        out
    }

    fn message_rows(&self) -> (r: String)
        ensures
            r@ == message_lines(self@.messages, SAST_MSG_ROWS as int),
    {
        let mut out = String::new();
        let mut i: usize = 0;
        while i < SAST_MSG_ROWS
            invariant
                i <= SAST_MSG_ROWS,
                out@ == message_lines(self@.messages, i as int),
            decreases SAST_MSG_ROWS - i,
        {
            if i < self.messages.len() {
                assert(self@.messages[i as int] == self.messages@[i as int]@);
                let mut l = "  \x1b[2m".to_owned();
                let m = text::truncate(&self.messages[i], 76);
                l.push_str(&m);
                l.push_str("\x1b[0m\n");
                out.push_str(&l);
            } else {
                out.push_str("\n");
            }
            i += 1;
        }
        out
    }

    /// What takes the display off the screen.
    pub fn erase(&self) -> (r: String)
        ensures
            r@ == erasing(),
    {
        pieces::str_repeat("\x1b[A\x1b[2K", SAST_DISPLAY_HEIGHT)
    }
}

// ---- the run ----------------------------------------------------------------------------------

/// What happens to a scan that is running.
pub enum ScanEvent {
    /// The time is over.
    TimedOut,
    /// The display is due.
    Tick,
    /// The connection is closed.
    Closed,
    Event(AppEvent),
}

pub enum ScanEventView {
    TimedOut,
    Tick,
    Closed,
    Event(pulse::EventView),
}

impl View for ScanEvent {
    type V = ScanEventView;

    open spec fn view(&self) -> ScanEventView {
        match self {
            ScanEvent::TimedOut => ScanEventView::TimedOut,
            ScanEvent::Tick => ScanEventView::Tick,
            ScanEvent::Closed => ScanEventView::Closed,
            ScanEvent::Event(e) => ScanEventView::Event(e@),
        }
    }
}

/// What to do next.
pub enum ScanAction {
    Wait,
    Render,
    /// The scan is complete.
    Finish,
    /// The scan failed; `note` is shown where there is one.
    Fail { note: Option<String>, error: String },
}

pub enum ScanActionView {
    Wait,
    Render,
    Finish,
    Fail { note: Option<Seq<char>>, error: Seq<char> },
}

impl View for ScanAction {
    type V = ScanActionView;

    open spec fn view(&self) -> ScanActionView {
        match self {
            ScanAction::Wait => ScanActionView::Wait,
            ScanAction::Render => ScanActionView::Render,
            ScanAction::Finish => ScanActionView::Finish,
            ScanAction::Fail { note, error } => ScanActionView::Fail {
                note: text::opt_view(*note),
                error: error@,
            },
        }
    }
}

/// A scan that is running.
pub struct ScanRun {
    pub kind: ScanKind,
    pub timeout: u64,
    pub display: ScanDisplay,
    /// All that the agent has said.
    pub said: String,
}

pub struct RunView {
    pub kind: ScanKind,
    pub timeout: u64,
    pub display: DisplayView,
    pub said: Seq<char>,
}

impl View for ScanRun {
    type V = RunView;

    open spec fn view(&self) -> RunView {
        RunView {
            kind: self.kind,
            timeout: self.timeout,
            display: self.display@,
            said: self.said@,
        }
    }
}

/// Scans of code and of running applications report more than the others.
pub open spec fn is_detailed(k: ScanKind) -> bool {
    k == ScanKind::Sast || k == ScanKind::Dast
}

/// A detail cut to `n` characters; a detailed report marks the cut where the
/// text has more than `n` bytes.
pub open spec fn cut_detail(d: Seq<char>, n: nat, detailed: bool) -> Seq<char> {
    text::prefix(d, n) + (if detailed && text::byte_len(d) > n {
        "…"@
    } else {
        Seq::empty()
    })
}

/// The message for the start of a tool call.
pub open spec fn start_message(name: Seq<char>, detail: Seq<char>, detailed: bool) -> Seq<char> {
    if detailed && detail.len() == 0 {
        "▶ "@ + name
    } else {
        "▶ "@ + name + "("@ + cut_detail(detail, 48, detailed) + ")"@
    }
}

/// The run with one more message.
pub open spec fn with_message(s: RunView, m: Seq<char>) -> RunView {
    RunView {
        display: DisplayView { messages: last_shown(s.display.messages.push(m)), ..s.display },
        ..s
    }
}

/// The run with what an item says.
pub open spec fn with_text(s: RunView, i: pulse::ItemView) -> RunView {
    match i.text {
        Some(t) => RunView { said: s.said + t, ..s },
        None => s,
    }
}

/// The run after an item of the agent's stream, and what to do.
pub open spec fn scan_streamed(s: RunView, i: pulse::ItemView) -> (RunView, ScanActionView) {
    let name = text::text_or(i.tool_name, "?"@);
    let detail = text::text_or(i.detail, Seq::empty());
    let detailed = is_detailed(s.kind);
    if i.kind == "tool_start"@ {
        (with_message(s, start_message(name, detail, detailed)), ScanActionView::Render)
    } else if i.kind == "tool_output"@ {
        if detail.len() == 0 {
            (s, ScanActionView::Wait)
        } else {
            (
                with_message(s, "◀ "@ + name + ": "@ + cut_detail(detail, 52, detailed)),
                ScanActionView::Render,
            )
        }
    } else if i.kind == "tool_failed"@ && detailed {
        (
            with_message(s, "✗ "@ + name + ": "@ + text::text_or(i.detail, "error"@)),
            ScanActionView::Render,
        )
    } else {
        (with_text(s, i), ScanActionView::Wait)
    }
}

/// The time as the errors say it.
pub open spec fn timed_out(secs: u64) -> Seq<char> {
    "timed out after "@ + digits::dec(secs as nat) + "s"@
}

/// What is shown when the time is over.
pub open spec fn timeout_note(k: ScanKind, secs: u64) -> Option<Seq<char>> {
    if is_detailed(k) {
        Some("error: scan "@ + timed_out(secs) + " — use --timeout to extend"@)
    } else if k == ScanKind::Sca {
        Some("error: "@ + timed_out(secs))
    } else {
        None
    }
}

/// The run after one event, and what to do.
pub open spec fn scan_stepped(s: RunView, e: ScanEventView) -> (RunView, ScanActionView) {
    match e {
        ScanEventView::TimedOut => (
            s,
            ScanActionView::Fail { note: timeout_note(s.kind, s.timeout), error: timed_out(s.timeout) },
        ),
        ScanEventView::Tick => (s, ScanActionView::Render),
        ScanEventView::Closed => (s, ScanActionView::Finish),
        ScanEventView::Event(pulse::EventView::RunFinished(_)) => (s, ScanActionView::Finish),
        ScanEventView::Event(pulse::EventView::Stream(i)) => scan_streamed(s, i),
        ScanEventView::Event(pulse::EventView::Error(w)) => (
            s,
            if is_detailed(s.kind) {
                ScanActionView::Fail {
                    note: Some("error: "@ + w),
                    error: "agent error: "@ + w,
                }
            } else {
                ScanActionView::Fail { note: None, error: w }
            },
        ),
        ScanEventView::Event(
            pulse::EventView::Interrupt { id: _, title: _, message: _, fields: _ },
        ) => (
            s,
            ScanActionView::Fail {
                note: if is_detailed(s.kind) {
                    Some(
                        "error: agent requested input — run interactively for complex scans"@,
                    )
                } else {
                    None
                },
                error: "agent requested human input during non-interactive scan"@,
            },
        ),
        _ => (s, ScanActionView::Wait),
    }
}

fn kind_is_detailed(k: ScanKind) -> (r: bool)
    ensures
        r == is_detailed(k),
{
    match k {
        ScanKind::Sast | ScanKind::Dast => true,
        _ => false,
    }
}

fn cut_detail_string(d: &str, n: usize, detailed: bool) -> (r: String)
    ensures
        r@ == cut_detail(d@, n as nat, detailed),
{
    let mut s = text::str_prefix(d, n);
    let ghost body = s@;
    if detailed && text::str_byte_len(d) > n {
        s.push_str("…");
    } else {
        assert(body + Seq::<char>::empty() =~= body);
    }
    s
}

fn timed_out_string(secs: u64) -> (r: String)
    ensures
        r@ == timed_out(secs),
{
    let mut s = "timed out after ".to_owned();
    let n = digits::u64_to_string(secs);
    s.push_str(&n);
    s.push_str("s");
    s
}

impl ScanRun {
    pub fn new(kind: ScanKind, timeout: u64, display: ScanDisplay) -> (r: ScanRun)
        ensures
            r@ == (RunView { kind, timeout, display: display@, said: Seq::empty() }),
    {
        ScanRun { kind, timeout, display, said: String::new() }
    }

    fn say(&mut self, i: &StreamItem)
        ensures
            final(self)@ == with_text(old(self)@, i@),
    {
        match &i.text {
            Some(t) => {
                self.said.push_str(t);
            },
            None => {},
        }
    }

    fn on_item(&mut self, i: &StreamItem) -> (r: ScanAction)
        ensures
            (final(self)@, r@) == scan_streamed(old(self)@, i@),
    {
        let name = text::opt_or(&i.tool_name, "?");
        let detail = match &i.detail {
            Some(d) => d.clone(),
            None => String::new(),
        };
        let detailed = kind_is_detailed(self.kind);
        if text::str_eq(&i.kind, "tool_start") {
            let mut m = "▶ ".to_owned();
            m.push_str(&name);
            if !(detailed && text::char_count(&detail) == 0) {
                m.push_str("(");
                let d = cut_detail_string(&detail, 48, detailed);
                m.push_str(&d);
                m.push_str(")");
            }
            self.display.push(m);
            ScanAction::Render
        } else if text::str_eq(&i.kind, "tool_output") {
            if text::char_count(&detail) == 0 {
                ScanAction::Wait
            } else {
                let mut m = "◀ ".to_owned();
                m.push_str(&name);
                m.push_str(": ");
                let d = cut_detail_string(&detail, 52, detailed);
                m.push_str(&d);
                self.display.push(m);
                ScanAction::Render
            }
        } else if text::str_eq(&i.kind, "tool_failed") && detailed {
            let mut m = "✗ ".to_owned();
            m.push_str(&name);
            m.push_str(": ");
            let w = text::opt_or(&i.detail, "error");
            m.push_str(&w);
            self.display.push(m);
            ScanAction::Render
        } else {
            self.say(i);
            ScanAction::Wait
        }
    }

    /// Takes one event and says what to do.
    pub fn step(&mut self, e: ScanEvent) -> (r: ScanAction)
        ensures
            (final(self)@, r@) == scan_stepped(old(self)@, e@),
    {
        match e {
            ScanEvent::TimedOut => {
                let error = timed_out_string(self.timeout);
                let note: Option<String> = match self.kind {
                    ScanKind::Sast | ScanKind::Dast => {
                        let mut n = "error: scan ".to_owned();
                        n.push_str(&error);
                        n.push_str(" — use --timeout to extend");
                        Some(n)
                    },
                    ScanKind::Sca => {
                        let mut n = "error: ".to_owned();
                        n.push_str(&error);
                        Some(n)
                    },
                    _ => None,
                };
                ScanAction::Fail { note, error }
            },
            ScanEvent::Tick => ScanAction::Render,
            ScanEvent::Closed => ScanAction::Finish,
            ScanEvent::Event(ev) => match ev {
                AppEvent::RunFinished(_) => ScanAction::Finish,
                AppEvent::Stream(i) => self.on_item(&i),
                AppEvent::Error(w) => {
                    if kind_is_detailed(self.kind) {
                        ScanAction::Fail {
                            note: Some(join_two("error: ", &w)),
                            error: join_two("agent error: ", &w),
                        }
                    } else {
                        ScanAction::Fail { note: None, error: w }
                    }
                },
                AppEvent::Interrupt { .. } => {
                    let note: Option<String> = if kind_is_detailed(self.kind) {
                        Some(
                            "error: agent requested input — run interactively for complex scans".to_owned(),
                        )
                    } else {
                        None
                    };
                    ScanAction::Fail {
                        note,
                        error: "agent requested human input during non-interactive scan".to_owned(),
                    }
                },
                _ => ScanAction::Wait,
            },
        }
    }
}

/// What a scan collects of the agent only grows.
pub proof fn answers_only_grow(s: RunView, e: ScanEventView)
    ensures
        scan_stepped(s, e).0.said.len() >= s.said.len(),
        scan_stepped(s, e).0.said.take(s.said.len() as int) == s.said,
        scan_stepped(s, e).0.display.messages.len() <= SAST_MSG_ROWS || scan_stepped(
            s,
            e,
        ).0.display.messages == s.display.messages,
{
    assert(s.said.take(s.said.len() as int) =~= s.said);
    match e {
        ScanEventView::Event(pulse::EventView::Stream(i)) => match i.text {
            Some(t) => {
                assert((s.said + t).take(s.said.len() as int) =~= s.said);
            },
            None => {},
        },
        _ => {},
    }
}

} // verus!
