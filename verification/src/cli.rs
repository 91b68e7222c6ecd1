//! What the commands print, and what they decide.

use vstd::prelude::*;
use crate::config;
use crate::config::{Config, Profile};
use crate::digits;
use crate::editor;
use crate::egress_proxy;
use crate::netpolicy;
use crate::pieces;
use crate::pulse;
use crate::pulse::{AppEvent, StreamItem};
use crate::text;

verus! {

broadcast use {
    vstd::seq::group_seq_axioms,
    vstd::map::group_map_axioms,
    vstd::string::group_string_axioms,
    text::views_push,
    text::views_empty,
};

/// The command was asked of a profile that cannot reach a tenant.
pub fn require_complete(p: &Profile) -> (r: Result<(), String>)
    ensures
        match r {
            Ok(_) => config::complete(p@),
            Err(e) => !config::complete(p@) && e@
                == "profile incomplete — run `strobes login` first"@,
        },
{
    if p.is_complete() {
        Ok(())
    } else {
        Err("profile incomplete — run `strobes login` first".to_owned())
    }
}

// ---- the end of a long reply --------------------------------------------------------------

pub const DONE_NOTICE: &'static str =
    "\x07\x1b]9;Strobes Agents — response ready\x07\x1b]777;notify;Strobes Agents;response ready\x07";

/// The bytes that make a terminal call the user back after a run of `secs`
/// seconds; nothing where that is switched off or the run was shorter than
/// `min`.
pub fn notify_done_bytes(secs: u64, disabled: bool, min: u64) -> (r: Option<Vec<u8>>)
    ensures
        match r {
            Some(b) => !disabled && secs >= min && b@ == vstd::utf8::encode_utf8(DONE_NOTICE@),
            None => disabled || secs < min,
        },
{
    if disabled || secs < min {
        return None;
    }
    let b = DONE_NOTICE.as_bytes_vec();
    Some(b)
}

/// Whether notices are off, and how long a run has to be, as the environment
/// says it.
pub fn notify_settings(notify: &Option<String>, min: &Option<String>) -> (r: (bool, u64))
    ensures
        r.0 == match text::opt_view(*notify) {
            Some(v) => netpolicy::eq_ignore_ascii_case(v, "off"@) || v == "0"@,
            None => false,
        },
        r.1 == match text::opt_view(*min) {
            Some(v) => match digits::parse_nat(v, u64::MAX as nat) {
                Some(n) => n,
                None => 4,
            },
            None => 4,
        },
{
    let off = match notify {
        Some(v) => netpolicy::str_eq_ignore_ascii_case(v, "off") || text::str_eq(v, "0"),
        None => false,
    };
    let least: u64 = match min {
        Some(v) => match digits::str_to_u64(v, u64::MAX) {
            Some(n) => n,
            None => 4,
        },
        None => 4,
    };
    (off, least)
}

// ---- versions --------------------------------------------------------------------------------

/// The number of digits that a text starts with.
pub open spec fn digit_run(s: Seq<char>) -> int
    decreases s.len(),
{
    if s.len() == 0 || !text::is_digit(s[0]) {
        0
    } else {
        1 + digit_run(s.skip(1))
    }
}

/// The number that a part of a version starts with.
pub open spec fn part_number(s: Seq<char>) -> nat {
    match digits::parse_nat(s.take(digit_run(s)), u64::MAX as nat) {
        Some(n) => n,
        None => 0,
    }
}

/// Part `i` of a version; a part that is not there counts as zero.
pub open spec fn version_part(s: Seq<char>, i: int) -> nat {
    let p = pieces::split_char(s, '.');
    if 0 <= i < p.len() {
        part_number(p[i])
    } else {
        0
    }
}

/// The first parts, from `i` to before `n`, in which two versions differ say
/// which of them is newer.
pub open spec fn newer_from(a: Seq<char>, b: Seq<char>, i: int, n: int) -> bool
    decreases n - i,
{
    if i >= n {
        false
    } else if version_part(a, i) != version_part(b, i) {
        version_part(a, i) > version_part(b, i)
    } else {
        newer_from(a, b, i + 1, n)
    }
}

/// The number of parts of the version that has more.
pub open spec fn part_count(a: Seq<char>, b: Seq<char>) -> int {
    let n = pieces::split_char(a, '.').len() as int;
    let m = pieces::split_char(b, '.').len() as int;
    if n > m {
        n
    } else {
        m
    }
}

/// Version `a` is newer than version `b`.
pub open spec fn newer(a: Seq<char>, b: Seq<char>) -> bool {
    newer_from(a, b, 0, part_count(a, b))
}

proof fn digit_run_bounds(s: Seq<char>)
    ensures
        0 <= digit_run(s) <= s.len(),
    decreases s.len(),
{
    if s.len() > 0 && text::is_digit(s[0]) {
        digit_run_bounds(s.skip(1));
    }
}

fn leading_number(s: &str) -> (r: u64)
    ensures
        r == part_number(s@),
{
    let v = text::chars_of(s);
    let n: usize = v.len();
    let mut k: usize = 0;
    assert(s@.skip(0) =~= s@);
    while k < n && '0' <= v[k] && v[k] <= '9'
        invariant
            k <= n,
            n == v@.len(),
            v@ == s@,
            digit_run(s@) == k + digit_run(s@.skip(k as int)),
        decreases n - k,
    {
        assert(s@.skip(k as int)[0] == v@[k as int]);
        assert(s@.skip(k as int).skip(1) =~= s@.skip(k as int + 1));
        k += 1;
    }
    proof {
        if k < n {
            assert(s@.skip(k as int)[0] == v@[k as int]);
        }
        assert(digit_run(s@) == k);
    }
    let d = pieces::str_take(s, k);
    match digits::str_to_u64(&d, u64::MAX) {
        Some(x) => x,
        None => 0,
    }
}

fn version_parts(s: &str) -> (r: Vec<u64>)
    ensures
        r@.len() == pieces::split_char(s@, '.').len(),
        forall|i: int| 0 <= i < r@.len() ==> (#[trigger] r@[i]) == version_part(s@, i),
{
    let parts = pieces::str_split_char(s, '.');
    let ghost all = text::views(parts@);
    let n: usize = parts.len();
    let mut out: Vec<u64> = Vec::new();
    let mut i: usize = 0;
    while i < n
        invariant
            i <= n,
            n == parts@.len(),
            all == text::views(parts@),
            all == pieces::split_char(s@, '.'),
            out@.len() == i,
            forall|k: int| 0 <= k < i ==> (#[trigger] out@[k]) == version_part(s@, k),
        decreases n - i,
    {
        assert(all[i as int] == parts@[i as int]@);
        out.push(leading_number(&parts[i]));
        i += 1;
    }
    out
}

fn part_at(v: &Vec<u64>, i: usize) -> (r: u64)
    ensures
        r == if i < v@.len() {
            v@[i as int]
        } else {
            0
        },
{
    if i < v.len() {
        v[i]
    } else {
        0
    }
}

/// Version `latest` is newer than version `current`.
pub fn version_is_newer(latest: &str, current: &str) -> (r: bool)
    ensures
        r == newer(latest@, current@),
{
    let l = version_parts(latest);
    let c = version_parts(current);
    let n: usize = if l.len() > c.len() {
        l.len()
    } else {
        c.len()
    };
    let mut i: usize = 0;
    while i < n
        invariant
            i <= n,
            n == part_count(latest@, current@),
            l@.len() == pieces::split_char(latest@, '.').len(),
            c@.len() == pieces::split_char(current@, '.').len(),
            forall|i: int| 0 <= i < l@.len() ==> (#[trigger] l@[i]) == version_part(latest@, i),
            forall|i: int| 0 <= i < c@.len() ==> (#[trigger] c@[i]) == version_part(current@, i),
            newer(latest@, current@) == newer_from(latest@, current@, i as int, n as int),
        decreases n - i,
    {
        let lv = part_at(&l, i);
        let cv = part_at(&c, i);
        assert(lv == version_part(latest@, i as int));
        assert(cv == version_part(current@, i as int));
        if lv != cv {
            return lv > cv;
        }
        i += 1;
    }
    false
}

proof fn newer_is_antisymmetric_from(a: Seq<char>, b: Seq<char>, i: int, n: int)
    ensures
        !(newer_from(a, b, i, n) && newer_from(b, a, i, n)),
    decreases n - i,
{
    if i < n && version_part(a, i) == version_part(b, i) {
        newer_is_antisymmetric_from(a, b, i + 1, n);
    }
}

proof fn newer_beyond_the_parts(a: Seq<char>, b: Seq<char>, i: int, n: int, m: int)
    requires
        part_count(a, b) <= n <= m,
        0 <= i,
    ensures
        newer_from(a, b, i, n) == newer_from(a, b, i, m),
    decreases m - i,
{
    if i < n {
        newer_beyond_the_parts(a, b, i + 1, n, m);
    } else if i < m {
        newer_beyond_the_parts(a, b, i + 1, n, m);
    }
}

proof fn newer_is_transitive_from(a: Seq<char>, b: Seq<char>, c: Seq<char>, i: int, n: int)
    requires
        newer_from(a, b, i, n),
        newer_from(b, c, i, n),
    ensures
        newer_from(a, c, i, n),
    decreases n - i,
{
    if version_part(a, i) == version_part(b, i) && version_part(b, i) == version_part(c, i) {
        newer_is_transitive_from(a, b, c, i + 1, n);
    }
}

/// No version is newer than itself or than one that is newer than it.
pub proof fn newer_goes_one_way(a: Seq<char>, b: Seq<char>)
    ensures
        !newer(a, a),
        !(newer(a, b) && newer(b, a)),
{
    newer_is_antisymmetric_from(a, a, 0, part_count(a, a));
    newer_is_antisymmetric_from(a, b, 0, part_count(a, b));
}

/// What is newer than a newer version is newer.
pub proof fn newer_is_transitive(a: Seq<char>, b: Seq<char>, c: Seq<char>)
    requires
        newer(a, b),
        newer(b, c),
    ensures
        newer(a, c),
{
    let n = part_count(a, b) + part_count(b, c);
    newer_beyond_the_parts(a, b, 0, part_count(a, b), n);
    newer_beyond_the_parts(b, c, 0, part_count(b, c), n);
    newer_beyond_the_parts(a, c, 0, part_count(a, c), n);
    newer_is_transitive_from(a, b, c, 0, n);
}

/// The build of a release for an operating system and an architecture.
pub open spec fn target_of(os: Seq<char>, arch: Seq<char>) -> Option<Seq<char>> {
    if os == "macos"@ && arch == "aarch64"@ {
        Some("aarch64-apple-darwin"@)
    } else if os == "macos"@ && arch == "x86_64"@ {
        Some("x86_64-apple-darwin"@)
    } else if os == "linux"@ && arch == "x86_64"@ {
        Some("x86_64-unknown-linux-gnu"@)
    } else if os == "windows"@ && arch == "x86_64"@ {
        Some("x86_64-pc-windows-msvc"@)
    } else {
        None
    }
}

/// The build of a release for an operating system and an architecture.
pub fn release_target(os: &str, arch: &str) -> (r: Option<&'static str>)
    ensures
        match r {
            Some(t) => target_of(os@, arch@) == Some(t@),
            None => target_of(os@, arch@) is None,
        },
{
    if text::str_eq(os, "macos") && text::str_eq(arch, "aarch64") {
        Some("aarch64-apple-darwin")
    } else if text::str_eq(os, "macos") && text::str_eq(arch, "x86_64") {
        Some("x86_64-apple-darwin")
    } else if text::str_eq(os, "linux") && text::str_eq(arch, "x86_64") {
        Some("x86_64-unknown-linux-gnu")
    } else if text::str_eq(os, "windows") && text::str_eq(arch, "x86_64") {
        Some("x86_64-pc-windows-msvc")
    } else {
        None
    }
}

/// The version of a release, as its tag says it.
pub fn tag_version(tag: &str) -> (r: String)
    ensures
        r@ == pieces::trim_start_char(tag@, 'v'),
{
    pieces::str_trim_start_char(tag, 'v')
}

/// Where the newest build of a target stands.
pub fn release_url(target: &str) -> (r: String)
    ensures
        r@
            == "https://github.com/strobes-co/strobes-agents-cli/releases/latest/download/strobes-"@
            + target@ + ".tar.gz"@,
{
    let mut t =
        "https://github.com/strobes-co/strobes-agents-cli/releases/latest/download/strobes-".to_owned();
    t.push_str(target);
    t.push_str(".tar.gz");
    t
}

/// What an update does.
pub enum Update {
    UpToDate,
    /// The build at this address, of this target.
    Fetch { target: String, url: String },
    /// There is no build for this machine.
    NoBuild(String),
}

/// What an update to `latest` does on a machine: a version that is not newer is
/// only fetched where that is forced.
pub fn update_plan(latest: &str, current: &str, force: bool, os: &str, arch: &str) -> (r: Update)
    ensures
        match r {
            Update::UpToDate => !force && !newer(latest@, current@),
            Update::Fetch { target, url } => (force || newer(latest@, current@)) && target_of(
                os@,
                arch@,
            ) == Some(target@) && url@
                == "https://github.com/strobes-co/strobes-agents-cli/releases/latest/download/strobes-"@
                + target@ + ".tar.gz"@,
            Update::NoBuild(e) => (force || newer(latest@, current@)) && target_of(os@, arch@)
                is None && e@ == "no prebuilt release for "@ + os@ + "/"@ + arch@
                + " — build from source"@,
        },
{
    if !force && !version_is_newer(latest, current) {
        return Update::UpToDate;
    }
    match release_target(os, arch) {
        Some(t) => Update::Fetch { target: t.to_owned(), url: release_url(t) },
        None => {
            let mut e = "no prebuilt release for ".to_owned();
            e.push_str(os);
            e.push_str("/");
            e.push_str(arch);
            e.push_str(" — build from source");
            Update::NoBuild(e)
        },
    }
}

// ---- events in words ---------------------------------------------------------------------------

/// A number or the word for none, as the debugging format writes them.
pub open spec fn exit_debug(o: Option<i32>) -> Seq<char> {
    match o {
        Some(n) => "Some("@ + digits::dec_int(n as int) + ")"@,
        None => "None"@,
    }
}

/// A stream item in words, with its text and its detail as they are shown.
pub open spec fn item_line_text(
    i: pulse::ItemView,
    text: Option<Seq<char>>,
    detail: Option<Seq<char>>,
) -> Seq<char> {
    "event["@ + i.kind + "]"@ + (match i.tool_name {
        Some(n) => " tool="@ + n,
        None => Seq::empty(),
    }) + (if i.local {
        " LOCAL"@
    } else {
        Seq::empty()
    }) + (match text {
        Some(t) => " text="@ + t,
        None => Seq::empty(),
    }) + (match detail {
        Some(d) => " detail="@ + d,
        None => Seq::empty(),
    })
}

/// The first eighty characters of a text, quoted.
pub open spec fn quoted_start(o: Option<Seq<char>>) -> Option<Seq<char>> {
    match o {
        Some(s) => Some(egress_proxy::debug_text(text::truncated(s, 80))),
        None => None,
    }
}

pub open spec fn item_text(i: pulse::ItemView) -> Seq<char> {
    item_line_text(i, quoted_start(i.text), quoted_start(i.detail))
}

/// The end of a tool that ran on this machine, with its error as it is shown.
pub open spec fn tool_line_text(
    name: Seq<char>,
    ms: nat,
    exit: Option<i32>,
    err: Option<Seq<char>>,
) -> Seq<char> {
    "local tool "@ + name + " done "@ + digits::dec(ms) + "ms exit="@ + exit_debug(exit) + " err="@
        + (match err {
        Some(e) => "Some("@ + e + ")"@,
        None => "None"@,
    })
}

/// A question of the agent, with its title as it is shown.
pub open spec fn interrupt_line_text(id: Seq<char>, title: Seq<char>, fields: nat) -> Seq<char> {
    "interrupt requested id="@ + id + " title="@ + title + " fields="@ + digits::dec(fields)
}

/// An event in words. The credits are written with four decimals.
pub open spec fn event_text(e: pulse::EventView, credits: Seq<char>) -> Seq<char> {
    match e {
        pulse::EventView::Connected => "connected"@,
        pulse::EventView::Disconnected(w) => "disconnected: "@ + w,
        pulse::EventView::RunStarted => "run started"@,
        pulse::EventView::RunFinished(l) => "run finished: "@ + l,
        pulse::EventView::Notice(n) => "notice: "@ + n,
        pulse::EventView::Credits { tokens, final_run } => "credits "@ + credits + " tokens "@
            + digits::dec_int(tokens as int) + " final="@ + (if final_run {
            "true"@
        } else {
            "false"@
        }),
        pulse::EventView::Error(e) => "error: "@ + e,
        pulse::EventView::LocalToolDone { name, ms, exit, err } => tool_line_text(
            name,
            ms as nat,
            exit,
            match err {
                Some(e) => Some(egress_proxy::debug_text(e)),
                None => None,
            },
        ),
        pulse::EventView::Interrupt { id, title, fields, .. } => interrupt_line_text(
            id,
            egress_proxy::debug_text(title),
            fields.len(),
        ),
        pulse::EventView::Stream(i) => item_text(i),
    }
}

/// A stream item in words, with its text and its detail as they are shown.
pub fn item_line(i: &StreamItem, text: &Option<String>, detail: &Option<String>) -> (r: String)
    ensures
        r@ == item_line_text(i@, text::opt_view(*text), text::opt_view(*detail)),
{
    let mut s = "event[".to_owned();
    s.push_str(&i.kind);
    s.push_str("]");
    match &i.tool_name {
        Some(n) => {
            let t = join2(" tool=", n);
            s.push_str(&t);
        },
        None => {
            assert(s@ + Seq::<char>::empty() =~= s@);
        },
    }
    if i.local {
        s.push_str(" LOCAL");
    } else {
        assert(s@ + Seq::<char>::empty() =~= s@);
    }
    match text {
        Some(x) => {
            let t = join2(" text=", x);
            s.push_str(&t);
        },
        None => {
            assert(s@ + Seq::<char>::empty() =~= s@);
        },
    }
    match detail {
        Some(x) => {
            let t = join2(" detail=", x);
            s.push_str(&t);
        },
        None => {
            assert(s@ + Seq::<char>::empty() =~= s@);
        },
    }
    s
}

/// The end of a tool that ran on this machine, with its error as it is shown.
pub fn tool_line(name: &str, ms: u64, exit: Option<i32>, err: &Option<String>) -> (r: String)
    ensures
        r@ == tool_line_text(name@, ms as nat, exit, text::opt_view(*err)),
{
    let mut s = join2("local tool ", name);
    s.push_str(" done ");
    let n = digits::u64_to_string(ms);
    s.push_str(&n);
    s.push_str("ms exit=");
    let code = match exit {
        Some(c) => {
            let n = digits::i64_to_string(c as i64);
            let mut t = join2("Some(", &n);
            t.push_str(")");
            t
        },
        None => "None".to_owned(),
    };
    s.push_str(&code);
    s.push_str(" err=");
    let why = match err {
        Some(x) => {
            let mut t = join2("Some(", x);
            t.push_str(")");
            t
        },
        None => "None".to_owned(),
    };
    s.push_str(&why);
    s
}

/// A question of the agent, with its title as it is shown.
pub fn interrupt_line(id: &str, title: &str, fields: usize) -> (r: String)
    ensures
        r@ == interrupt_line_text(id@, title@, fields as nat),
{
    let mut s = join2("interrupt requested id=", id);
    s.push_str(" title=");
    s.push_str(title);
    s.push_str(" fields=");
    let n = digits::usize_to_string(fields);
    s.push_str(&n);
    s
}

fn quote_start(o: &Option<String>) -> (r: Option<String>)
    ensures
        text::opt_view(r) == quoted_start(text::opt_view(*o)),
{
    match o {
        Some(x) => {
            let short = text::truncate(x, 80);
            Some(egress_proxy::format_debug(&short))
        },
        None => None,
    }
}

fn join2(a: &str, b: &str) -> (r: String)
    ensures
        r@ == a@ + b@,
{
    let mut s = a.to_owned();
    s.push_str(b);
    s
}

/// An event in words. The credits are written with four decimals.
pub fn describe(ev: &AppEvent, credits: &str) -> (r: String)
    ensures
        r@ == event_text(ev@, credits@),
{
    match ev {
        AppEvent::Connected => "connected".to_owned(),
        AppEvent::Disconnected(w) => join2("disconnected: ", w),
        AppEvent::RunStarted => "run started".to_owned(),
        AppEvent::RunFinished(l) => join2("run finished: ", l),
        AppEvent::Notice(n) => join2("notice: ", n),
        AppEvent::Credits { tokens, final_run } => {
            let mut s = join2("credits ", credits);
            s.push_str(" tokens ");
            let n = digits::i64_to_string(*tokens);
            s.push_str(&n);
            s.push_str(" final=");
            s.push_str(
                if *final_run {
                    "true"
                } else {
                    "false"
                },
            );
            s
        },
        AppEvent::Error(e) => join2("error: ", e),
        AppEvent::LocalToolDone { name, ms, exit, err } => {
            let why = match err {
                Some(x) => Some(egress_proxy::format_debug(x)),
                None => None,
            };
            tool_line(name, *ms, *exit, &why)
        },
        AppEvent::Interrupt { id, title, message: _, fields } => {
            let shown = egress_proxy::format_debug(title);
            interrupt_line(id, &shown, fields.len())
        },
        AppEvent::Stream(i) => {
            let shown = quote_start(&i.text);
            let detail = quote_start(&i.detail);
            item_line(i, &shown, &detail)
        },
    }
}

/// The address of a socket without its query.
pub fn without_query(url: &str) -> (r: String)
    ensures
        r@ == pieces::first_piece(url@, '?'),
{
    pieces::str_first_piece(url, '?')
}

// ---- signing in ----------------------------------------------------------------------------------

/// A secret can be shown in part.
pub open spec fn can_redact(s: Seq<char>) -> bool {
    text::byte_len(s) > 8 ==> editor::on_boundary(s, 4) && editor::on_boundary(
        s,
        (text::byte_len(s) - 4) as nat,
    )
}

/// The question for a value: the current one is shown, a secret only in part.
pub fn prompt_text(label: &str, current: &str, secret: bool) -> (r: String)
    requires
        secret ==> can_redact(current@),
    ensures
        r@ == label@ + (if current@.len() == 0 {
            Seq::empty()
        } else {
            " ["@ + (if secret {
                config::redacted(current@)
            } else {
                current@
            }) + "]"@
        }) + ": "@,
{
    let mut s = label.to_owned();
    if !current.is_empty() {
        let shown = if secret {
            config::redact(current)
        } else {
            current.to_owned()
        };
        let mut hint = " [".to_owned();
        hint.push_str(&shown);
        hint.push_str("]");
        s.push_str(&hint);
    } else {
        assert(s@ + Seq::<char>::empty() =~= s@);
    }
    s.push_str(": ");
    s
}

/// The value after the answer: an empty answer keeps the current one.
pub fn answered(line: &str, current: &str) -> (r: String)
    ensures
        r@ == if pieces::is_blank(line@) {
            current@
        } else {
            pieces::trim(line@)
        },
{
    let t = pieces::str_trim(line);
    if t.as_str().is_empty() {
        current.to_owned()
    } else {
        t
    }
}

/// What signing in did to the default tenant.
#[derive(Clone, Copy, Debug, PartialEq, Eq, Structural)]
pub enum SignedIn {
    /// The credentials are not complete.
    Incomplete,
    /// The tenant has become the default.
    NowDefault,
    /// Another tenant stays the default.
    OtherDefault,
    /// The tenant was the default before.
    WasDefault,
}

/// A profile with the credentials that were given.
pub open spec fn signed_in(
    p: config::ProfileView,
    base: Seq<char>,
    org: Seq<char>,
    key: Seq<char>,
    deployment: Seq<char>,
) -> config::ProfileView {
    config::ProfileView {
        base_url: pieces::trim_end_char(pieces::trim(base), '/'),
        org_id: pieces::trim(org),
        master_key: pieces::trim(key),
        deployment: pieces::trim(deployment),
        ..p
    }
}

/// The default tenant has all its credentials.
pub open spec fn has_usable_default(c: Config) -> bool {
    c.profiles@.dom().contains(c.current_profile@) && config::complete(
        c.profiles@[c.current_profile@]@,
    )
}

/// `after` is `before` with a profile for a tenant. The first tenant whose
/// credentials are complete has become the default, and `r` says what came of
/// it.
pub open spec fn credentials_kept(
    before: Config,
    after: Config,
    tenant: Seq<char>,
    p: config::ProfileView,
    r: SignedIn,
) -> bool {
    &&& after.workspace_dirs == before.workspace_dirs
    &&& after.profiles@ == before.profiles@.insert(tenant, after.profiles@[tenant])
    &&& after.profiles@[tenant]@ == p
    &&& r == if !config::complete(p) {
        SignedIn::Incomplete
    } else if !has_usable_default(before) {
        SignedIn::NowDefault
    } else if before.current_profile@ != tenant {
        SignedIn::OtherDefault
    } else {
        SignedIn::WasDefault
    }
    &&& after.current_profile@ == if r == SignedIn::NowDefault {
        tenant
    } else {
        before.current_profile@
    }
}

/// Keeps a tenant's credentials. The first tenant whose credentials are
/// complete becomes the default.
pub fn sign_in(
    cfg: &mut Config,
    tenant: &str,
    base_url: &str,
    org_id: &str,
    master_key: &str,
    deployment: &str,
) -> (r: SignedIn)
    requires
        config::well_formed(*old(cfg)),
    ensures
        config::well_formed(*final(cfg)),
        credentials_kept(
            *old(cfg),
            *final(cfg),
            tenant@,
            signed_in(
                config::profile_named(*old(cfg), tenant@),
                base_url@,
                org_id@,
                master_key@,
                deployment@,
            ),
            r,
        ),
{
    let had = cfg.has_default();
    let mut p = match cfg.profiles.get(tenant) {
        Some(p) => p.duplicate(),
        None => Profile::default(),
    };
    let trimmed = pieces::str_trim(base_url);
    p.base_url = pieces::str_trim_end_char(&trimmed, '/');
    p.org_id = pieces::str_trim(org_id);
    p.master_key = pieces::str_trim(master_key);
    p.deployment = pieces::str_trim(deployment);
    let complete = p.is_complete();
    cfg.profiles.insert(tenant, p);
    if !complete {
        SignedIn::Incomplete
    } else if !had {
        cfg.current_profile = tenant.to_owned();
        SignedIn::NowDefault
    } else if !text::str_eq(&cfg.current_profile, tenant) {
        SignedIn::OtherDefault
    } else {
        SignedIn::WasDefault
    }
}

/// Credentials that were kept are those of the tenant's profile afterwards, and
/// no other tenant's change.
pub proof fn kept_credentials_come_back(
    before: Config,
    after: Config,
    tenant: Seq<char>,
    p: config::ProfileView,
    r: SignedIn,
    other: Seq<char>,
)
    requires
        credentials_kept(before, after, tenant, p, r),
    ensures
        config::profile_named(after, tenant) == p,
        other != tenant ==> config::profile_named(after, other) == config::profile_named(
            before,
            other,
        ),
{
}

/// Signing in with complete credentials always leaves a usable default tenant,
/// and one that was usable stays the default whatever is signed in.
pub proof fn a_usable_default_stays(
    before: Config,
    after: Config,
    tenant: Seq<char>,
    p: config::ProfileView,
    r: SignedIn,
)
    requires
        credentials_kept(before, after, tenant, p, r),
    ensures
        config::complete(p) ==> has_usable_default(after),
        has_usable_default(before) ==> after.current_profile@ == before.current_profile@,
        has_usable_default(before) && tenant != before.current_profile@ ==> has_usable_default(
            after,
        ),
{
}

} // verus!
