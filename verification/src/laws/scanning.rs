//! Scans: what is copied, what the agent answers, and how a run goes.

use vstd::prelude::*;
use crate::digits;
use crate::laws::texts;
use crate::laws::texts::lacks;
use crate::pieces;
use crate::pulse;
use crate::scan;
use crate::scan::{CopyDecision, RunView, ScanActionView, ScanEventView, ScanKind};
use crate::text;

verus! {

broadcast use vstd::seq::group_seq_axioms;

proof fn fence()
    ensures
        "```json"@ == seq!['`', '`', '`', 'j', 's', 'o', 'n'],
        "```"@ == seq!['`', '`', '`'],
{
    reveal_strlit("```json");
    reveal_strlit("```");
    assert("```json"@ =~= seq!['`', '`', '`', 'j', 's', 'o', 'n']);
    assert("```"@ =~= seq!['`', '`', '`']);
}

/// The findings of an answer stand in its first block that is fenced as JSON: what
/// stands between the fences is taken, without its white ends; a block that is not
/// closed goes to the end.
pub proof fn answers_stand_between_fences(a: Seq<char>, body: Seq<char>, b: Seq<char>)
    requires
        lacks(a, '`'),
        lacks(body, '`'),
    ensures
        scan::answer_block(
            a + seq!['`', '`', '`', 'j', 's', 'o', 'n'] + body + seq!['`', '`', '`'] + b,
        ) == Some(pieces::trim(body)),
        scan::answer_block(a + seq!['`', '`', '`', 'j', 's', 'o', 'n'] + body) == Some(
            pieces::trim(body),
        ),
        scan::fenced_block(a) is None,
{
    fence();
    let open = "```json"@;
    let close = "```"@;
    let t = a + open + body + close + b;
    texts::parts_are_found_where_they_stand(a, open, body + close + b);
    assert(a + open + (body + close + b) =~= t);
    assert(t.skip(a.len() as int + 7) =~= body + close + b);
    texts::parts_are_found_where_they_stand(body, close, b);
    assert((body + close + b).take(body.len() as int) =~= body);
    let u = a + open + body;
    texts::parts_are_found_where_they_stand(a, open, body);
    assert(u.skip(a.len() as int + 7) =~= body);
    texts::lacking_texts_have_no_part(body, close, 0);
    texts::lacking_texts_have_no_part(a, open, 0);
}

/// An answer without a fenced block is taken from its first opening brace to its
/// last closing one; without a brace there is nothing to take.
pub proof fn bare_answers_stand_between_braces(a: Seq<char>, body: Seq<char>, b: Seq<char>)
    requires
        lacks(a + seq!['{'] + body + seq!['}'] + b, '`'),
        lacks(a, '{'),
        lacks(b, '}'),
    ensures
        scan::answer_block(a + seq!['{'] + body + seq!['}'] + b) == Some(
            seq!['{'] + body + seq!['}'],
        ),
        scan::answer_block(a) is None,
{
    fence();
    let t = a + seq!['{'] + body + seq!['}'] + b;
    texts::lacking_texts_have_no_part(t, "```json"@, 0);
    assert(lacks(a, '`')) by {
        assert forall|i: int| 0 <= i < a.len() implies (#[trigger] a[i]) != '`' by {
            assert(t[i] == a[i]);
        }
    }
    texts::lacking_texts_have_no_part(a, "```json"@, 0);
    texts::pieces_stand_between_separators(a, '{', body + seq!['}'] + b);
    assert(a + seq!['{'] + (body + seq!['}'] + b) =~= t);
    last_brace(a + seq!['{'] + body, b);
    assert(a + seq!['{'] + body + seq!['}'] + b =~= t);
    let k: int = (a + seq!['{'] + body).len() as int;
    assert(t.subrange(a.len() as int, k + 1) =~= seq!['{'] + body + seq!['}']);
}

proof fn last_brace(a: Seq<char>, b: Seq<char>)
    requires
        lacks(b, '}'),
    ensures
        pieces::last_index_of(a + seq!['}'] + b, '}') == Some(a.len() as int),
    decreases b.len(),
{
    let t = a + seq!['}'] + b;
    if b.len() == 0 {
        assert(t.last() == '}');
    } else {
        assert(t.last() == b[b.len() - 1]);
        assert(t.drop_last() =~= a + seq!['}'] + b.drop_last());
        last_brace(a, b.drop_last());
    }
}

/// A file is copied where its kind is read and it is not too large and still fits;
/// one that does not fit ends the copying.
pub proof fn files_are_copied_where_they_fit(ext: Seq<char>, size: u64, copied: u64, limit: u64)
    ensures
        ({
            let r = scan::copy_of(ext, size, copied, limit);
            let skipped = scan::listed(scan::SAST_SKIP_EXTS@, text::lowercase(ext));
            &&& skipped || size > 524288 ==> r == CopyDecision::Skip
            &&& !skipped && size <= 524288 && copied + size <= limit ==> r == CopyDecision::Copy
            &&& !skipped && size <= 524288 && copied + size > limit ==> r == CopyDecision::Full
        }),
{
}

/// Pictures, archives, programs and lock files are not read, nor are the folders
/// of version control, of dependencies and of build results.
pub proof fn some_kinds_are_not_read()
    ensures
        scan::listed(scan::SAST_SKIP_EXTS@, "png"@),
        scan::listed(scan::SAST_SKIP_EXTS@, "zip"@),
        scan::listed(scan::SAST_SKIP_EXTS@, "exe"@),
        scan::listed(scan::SAST_SKIP_EXTS@, "pdf"@),
        scan::listed(scan::SAST_SKIP_EXTS@, "lock"@),
        scan::listed(scan::SAST_SKIP_EXTS@, "mp4"@),
        scan::listed(scan::SAST_SKIP_EXTS@, "woff2"@),
        scan::listed(scan::SAST_SKIP_DIRS@, ".git"@),
        scan::listed(scan::SAST_SKIP_DIRS@, "node_modules"@),
        scan::listed(scan::SAST_SKIP_DIRS@, "target"@),
        scan::listed(scan::SAST_SKIP_DIRS@, "vendor"@),
        scan::listed(scan::SAST_SKIP_DIRS@, ".venv"@),
        scan::listed(scan::SAST_SKIP_DIRS@, "__pycache__"@),
{
    let e = scan::SAST_SKIP_EXTS@;
    assert(e[0]@ == "png"@ && e[9]@ == "zip"@ && e[16]@ == "exe"@ && e[8]@ == "pdf"@);
    assert(e[35]@ == "lock"@ && e[24]@ == "mp4"@ && e[33]@ == "woff2"@);
    let d = scan::SAST_SKIP_DIRS@;
    assert(d[0]@ == ".git"@ && d[3]@ == "node_modules"@ && d[6]@ == "target"@);
    assert(d[11]@ == "vendor"@ && d[13]@ == ".venv"@ && d[4]@ == "__pycache__"@);
}

/// A file is left out where one of the patterns matches, and only there.
pub proof fn one_match_is_enough(matched: Seq<bool>, n: int)
    requires
        0 <= n <= matched.len(),
    ensures
        scan::any_yes(matched, n) <==> exists|k: int| 0 <= k < n && #[trigger] matched[k],
    decreases n,
{
    if n > 0 {
        one_match_is_enough(matched, n - 1);
        if scan::any_yes(matched, n - 1) {
            let k = choose|k: int| 0 <= k < n - 1 && #[trigger] matched[k];
            assert(matched[k]);
        }
    }
}

/// A name for a file keeps letters, digits, `-` and `_`, and puts `_` for the
/// rest, one for one.
pub proof fn names_for_files_are_plain(s: Seq<char>, k: int)
    requires
        0 <= k < s.len(),
    ensures
        scan::safe_name(s).len() == s.len(),
        ('a' <= s[k] <= 'z') || ('A' <= s[k] <= 'Z') || ('0' <= s[k] <= '9') || s[k] == '-' || s[k]
            == '_' ==> scan::safe_name(s)[k] == s[k],
        s[k] == '/' || s[k] == ' ' || s[k] == '.' || s[k] == ':' ==> scan::safe_name(s)[k] == '_',
{
}

/// The threads and tasks of a scan name its kind and what it is of.
pub proof fn scans_are_titled(target: Seq<char>)
    ensures
        scan::scan_titles(ScanKind::Sast, target) == ("SAST: "@ + target, "SAST scan: "@ + target),
        scan::scan_titles(ScanKind::Sca, target) == (
            "SCA: "@ + target,
            "SCA reachability: "@ + target,
        ),
        scan::scan_titles(ScanKind::Container, target) == (
            "Container: "@ + target,
            "Container scan: "@ + target,
        ),
        scan::scan_titles(ScanKind::Iac, target) == ("IaC: "@ + target, "IaC scan: "@ + target),
        scan::scan_titles(ScanKind::Dast, target) == ("DAST: "@ + target, "DAST scan: "@ + target),
{
}

/// An image is called by its last name, without registry and tag.
pub proof fn images_are_called_by_their_last_name(registry: Seq<char>, n: Seq<char>, tag: Seq<char>)
    requires
        lacks(registry, '/'),
        lacks(n, '/') && lacks(n, ':'),
        lacks(tag, '/'),
    ensures
        scan::image_name(n) == n,
        scan::image_name(n + seq![':'] + tag) == n,
        scan::image_name(registry + seq!['/'] + (n + seq![':'] + tag)) == n,
{
    let t = n + seq![':'] + tag;
    assert(lacks(t, '/'));
    texts::pieces_stand_between_separators(n, '/', tag);
    texts::pieces_stand_between_separators(t, '/', tag);
    texts::pieces_stand_between_separators(registry, '/', t);
    texts::pieces_stand_between_separators(n, ':', tag);
    assert((seq![registry] + seq![t]).last() == t);
}

/// The address of an application is taken without a slash at its end, and it is
/// called by it without the scheme.
pub proof fn applications_are_called_by_their_address(host: Seq<char>)
    requires
        host.len() > 0,
        host.last() != '/',
        host[0] != 'h',
    ensures
        scan::dast_target("https://"@ + host + seq!['/']) == ("https://"@ + host, host),
        scan::dast_target("http://"@ + host) == ("http://"@ + host, host),
{
    reveal_strlit("https://");
    reveal_strlit("http://");
    assert("https://"@[0] == 'h' && "http://"@[0] == 'h');
    assert("https://"@[4] == 's' && "http://"@[4] == ':');
    let s = "https://"@ + host;
    let p = "http://"@ + host;
    assert(s.last() == host.last() && p.last() == host.last());
    let u = s + seq!['/'];
    assert(u.drop_last() =~= s);
    reveal_with_fuel(pieces::trim_end_char, 2);
    assert(!text::starts_with(host, "https://"@)) by {
        if text::starts_with(host, "https://"@) {
            assert(host.subrange(0, 8)[0] == host[0]);
        }
    }
    assert(!text::starts_with(host, "http://"@)) by {
        if text::starts_with(host, "http://"@) {
            assert(host.subrange(0, 7)[0] == host[0]);
        }
    }
    assert(!text::starts_with(p, "https://"@)) by {
        if text::starts_with(p, "https://"@) {
            assert(p.subrange(0, 8)[4] == p[4]);
        }
    }
    texts::prefixes_come_off("https://"@, host);
    texts::prefixes_come_off("http://"@, host);
    texts::prefixes_come_off("https://"@, p);
}

proof fn tool_words()
    ensures
        "tool_output"@ != "tool_start"@,
        "tool_failed"@ != "tool_start"@,
        "tool_failed"@ != "tool_output"@,
        "token"@ != "tool_start"@,
        "token"@ != "tool_output"@,
        "token"@ != "tool_failed"@,
{
    reveal_strlit("tool_start");
    reveal_strlit("tool_output");
    reveal_strlit("tool_failed");
    reveal_strlit("token");
    assert("token"@.len() == 5 && "tool_start"@.len() == 10);
    assert("tool_output"@.len() == 11 && "tool_output"@[5] == 'o');
    assert("tool_failed"@.len() == 11 && "tool_failed"@[5] == 'f');
}

/// What the agent says during a scan is put together in order, and is all that
/// the answer is made of; what its tools do is shown and leaves the answer alone.
pub proof fn answers_are_what_the_agent_says(s: RunView, i: pulse::ItemView, t: Seq<char>)
    ensures
        i.kind == "token"@ && i.text == Some(t) ==> {
            let r = scan::scan_stepped(s, ScanEventView::Event(pulse::EventView::Stream(i)));
            r.0.said == s.said + t && r.1 == ScanActionView::Wait && r.0.display == s.display
        },
        i.kind == "tool_start"@ || i.kind == "tool_output"@ ==> scan::scan_stepped(
            s,
            ScanEventView::Event(pulse::EventView::Stream(i)),
        ).0.said == s.said,
{
    tool_words();
}

/// A tool that the agent calls is shown by its name and what it is called with,
/// what it gives back by its name and the beginning of that; the last three of
/// them stay in view.
pub proof fn tools_of_a_scan_are_shown(s: RunView, i: pulse::ItemView, name: Seq<char>, d: Seq<char>)
    requires
        i.tool_name == Some(name),
        i.detail == Some(d),
        0 < d.len() <= 48,
        text::byte_len(d) <= 48,
        s.display.messages.len() == 3,
    ensures
        i.kind == "tool_start"@ ==> {
            let r = scan::scan_stepped(s, ScanEventView::Event(pulse::EventView::Stream(i)));
            let m = r.0.display.messages;
            &&& r.1 == ScanActionView::Render
            &&& m.len() == 3
            &&& m[0] == s.display.messages[1]
            &&& m[1] == s.display.messages[2]
            &&& m[2] == "▶ "@ + name + "("@ + d + ")"@
        },
        i.kind == "tool_output"@ ==> {
            let r = scan::scan_stepped(s, ScanEventView::Event(pulse::EventView::Stream(i)));
            let m = r.0.display.messages;
            &&& r.1 == ScanActionView::Render
            &&& m.len() == 3
            &&& m[2] == "◀ "@ + name + ": "@ + d
        },
{
    tool_words();
    assert(d + Seq::<char>::empty() =~= d);
}

/// A scan ends where its run ends or its connection closes, and is drawn anew at
/// each tick; neither changes what was said.
pub proof fn scans_end_with_their_run(s: RunView, label: Seq<char>)
    ensures
        scan::scan_stepped(s, ScanEventView::Closed) == (s, ScanActionView::Finish),
        scan::scan_stepped(s, ScanEventView::Event(pulse::EventView::RunFinished(label))) == (
            s,
            ScanActionView::Finish,
        ),
        scan::scan_stepped(s, ScanEventView::Tick) == (s, ScanActionView::Render),
{
}

/// A scan that takes too long fails, and says after how long; so does one whose
/// agent fails, with its error, and one whose agent asks for something.
pub proof fn scans_fail_with_a_reason(
    s: RunView,
    why: Seq<char>,
    id: Seq<char>,
    title: Seq<char>,
    message: Seq<char>,
    fields: Seq<pulse::FieldView>,
)
    ensures
        scan::scan_stepped(s, ScanEventView::TimedOut).1 matches ScanActionView::Fail { error, .. }
            && error == "timed out after "@ + digits::dec(s.timeout as nat) + "s"@,
        s.kind == ScanKind::Sast || s.kind == ScanKind::Dast ==> (scan::scan_stepped(
            s,
            ScanEventView::Event(pulse::EventView::Error(why)),
        ).1 == ScanActionView::Fail {
            note: Some("error: "@ + why),
            error: "agent error: "@ + why,
        }),
        s.kind == ScanKind::Sca || s.kind == ScanKind::Container || s.kind == ScanKind::Iac ==> (
        scan::scan_stepped(s, ScanEventView::Event(pulse::EventView::Error(why))).1
            == ScanActionView::Fail { note: None, error: why }),
        scan::scan_stepped(
            s,
            ScanEventView::Event(pulse::EventView::Interrupt { id, title, message, fields }),
        ).1 matches ScanActionView::Fail { error, .. } && error
            == "agent requested human input during non-interactive scan"@,
{
}

/// A call without arguments is shown by its name alone where calls are shown in
/// detail; a failed one is shown with its reason there. An output that says nothing
/// is not shown.
pub proof fn bare_calls_are_shown_by_name(s: RunView, i: pulse::ItemView, name: Seq<char>, d: Seq<char>)
    requires
        i.tool_name == Some(name),
        s.display.messages.len() == 0,
    ensures
        ({
            let r = scan::scan_stepped(s, ScanEventView::Event(pulse::EventView::Stream(i)));
            &&& i.kind == "tool_start"@ && i.detail is None && scan::is_detailed(s.kind)
                ==> r.0.display.messages == seq!["▶ "@ + name] && r.1 == ScanActionView::Render
            &&& i.kind == "tool_failed"@ && i.detail == Some(d) && scan::is_detailed(s.kind)
                ==> r.0.display.messages == seq!["✗ "@ + name + ": "@ + d] && r.1
                == ScanActionView::Render
            &&& i.kind == "tool_output"@ && i.detail is None ==> r == (s, ScanActionView::Wait)
        }),
        scan::is_detailed(ScanKind::Sast) && scan::is_detailed(ScanKind::Dast),
        !scan::is_detailed(ScanKind::Sca) && !scan::is_detailed(ScanKind::Iac),
{
    tool_words();
    let m = s.display.messages;
    assert(m.push("▶ "@ + name) =~= seq!["▶ "@ + name]);
    assert(m.push("✗ "@ + name + ": "@ + d) =~= seq!["✗ "@ + name + ": "@ + d]);
}

/// The last three messages of a scan stay on the screen.
pub proof fn the_last_messages_stay(v: Seq<Seq<char>>, k: int)
    ensures
        v.len() <= 3 ==> scan::last_shown(v) == v,
        v.len() > 3 ==> scan::last_shown(v).len() == 3 && (0 <= k < 3 ==> scan::last_shown(v)[k]
            == v[v.len() - 3 + k]),
{
}

/// A scan that takes too long says so, and those of code and of running
/// applications say how to give it more time.
pub proof fn slow_scans_say_so(secs: u64)
    ensures
        scan::timeout_note(ScanKind::Sast, secs) matches Some(t) && text::contains(
            t,
            digits::dec(secs as nat),
        ) && text::contains(t, "--timeout"@),
        scan::timeout_note(ScanKind::Dast, secs) == scan::timeout_note(ScanKind::Sast, secs),
        scan::timeout_note(ScanKind::Sca, secs) matches Some(t) && text::contains(
            t,
            digits::dec(secs as nat),
        ),
        scan::timeout_note(ScanKind::Iac, secs) is None,
        scan::timeout_note(ScanKind::Container, secs) is None,
{
    let n = digits::dec(secs as nat);
    texts::wholes_hold_their_parts("timed out after "@, n, "s"@);
    let t = scan::timed_out(secs);
    texts::longer_texts_hold_it("error: scan "@, t, n);
    let last = " — use --timeout to extend"@;
    texts::longer_texts_hold_it("error: scan "@ + t, last, n);
    texts::longer_texts_hold_it("error: "@, t, n);
    reveal_strlit(" — use --timeout to extend");
    reveal_strlit("--timeout");
    assert(last.subrange(7, 16) =~= "--timeout"@);
    assert(text::occurs_at(last, "--timeout"@, 7));
    texts::longer_texts_hold_it("error: scan "@ + t, last, "--timeout"@);
}

} // verus!
