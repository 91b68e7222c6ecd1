//! The machine: what may be reached, how commands are confined, and what the
//! tools on this machine are asked to do.

use vstd::prelude::*;
use crate::bridge;
use crate::browser;
use crate::browser::NetView;
use crate::chrome;
use crate::chrome::BrowserStepView;
use crate::digits;
use crate::egress_proxy;
use crate::egress_proxy::{ReplyView, RequestView};
use crate::ip;
use crate::ip::IpAddr;
use crate::json;
use crate::json::JsonView;
use crate::laws::results::{holds, says};
use crate::laws::texts;
use crate::laws::texts::lacks;
use crate::local;
use crate::local::{LocalCallView, SandboxDirView};
use crate::netpolicy;
use crate::netpolicy::{Action, DecisionView, RuleView};
use crate::pack;
use crate::pieces;
use crate::procsandbox;
use crate::scan;
use crate::text;
use crate::weburl;

verus! {

broadcast use vstd::seq::group_seq_axioms;

// ---- addresses ------------------------------------------------------------------------------

proof fn dots_apart(a: Seq<char>, b: Seq<char>, c: Seq<char>, d: Seq<char>)
    requires
        lacks(a, '.') && lacks(b, '.') && lacks(c, '.') && lacks(d, '.'),
    ensures
        pieces::split_char(a + seq!['.'] + b + seq!['.'] + c + seq!['.'] + d, '.') == seq![a, b, c, d],
{
    let e = c + seq!['.'] + d;
    let f = b + seq!['.'] + e;
    assert(a + seq!['.'] + b + seq!['.'] + c + seq!['.'] + d =~= a + seq!['.'] + f);
    texts::pieces_stand_between_separators(a, '.', f);
    texts::pieces_stand_between_separators(b, '.', e);
    texts::pieces_stand_between_separators(c, '.', d);
    texts::pieces_stand_between_separators(d, '.', d);
    assert(seq![a] + (seq![b] + (seq![c] + seq![d])) =~= seq![a, b, c, d]);
}

proof fn octets_read_back(n: u8)
    ensures
        ip::octet(digits::dec(n as nat)) == Some(n),
        lacks(digits::dec(n as nat), '.'),
{
    digits::dec_reads_back(n as nat);
    let d = digits::dec(n as nat);
    reveal_with_fuel(digits::dec, 4);
    assert(d.len() <= 3);
    assert(forall|i: int| 0 <= i < d.len() ==> text::is_digit(#[trigger] d[i]));
    if n >= 10 {
        assert(d[0] != '0');
    }
}

/// An address of four numbers is read back from its text.
pub proof fn addresses_read_back(a: u8, b: u8, c: u8, d: u8)
    ensures
        ip::ip_of(ip::ip_text(IpAddr::V4(a, b, c, d))) == Some(IpAddr::V4(a, b, c, d)),
        ip::ip_text(IpAddr::V4(a, b, c, d)) == digits::dec(a as nat) + seq!['.'] + digits::dec(
            b as nat,
        ) + seq!['.'] + digits::dec(c as nat) + seq!['.'] + digits::dec(d as nat),
{
    octets_read_back(a);
    octets_read_back(b);
    octets_read_back(c);
    octets_read_back(d);
    dots_apart(
        digits::dec(a as nat),
        digits::dec(b as nat),
        digits::dec(c as nat),
        digits::dec(d as nat),
    );
}

/// The addresses of a cloud's metadata: 169.254 and what follows, and in the long
/// form those of a link.
pub proof fn metadata_addresses_are_known(c: u8, d: u8, a: u8, b: u8)
    ensures
        ip::is_metadata(IpAddr::V4(169, 254, c, d)),
        a != 169 || b != 254 ==> !ip::is_metadata(IpAddr::V4(a, b, c, d)),
        ip::is_metadata(IpAddr::V6(0xfe80, 0, 0, 0, 0, 0, 0, 1)),
        !ip::is_metadata(IpAddr::V6(0, 0, 0, 0, 0, 0, 0, 1)),
{
}

// ---- what may be reached -------------------------------------------------------------------------

/// A rule with a star and a dot is for the hosts below a domain, an address is for
/// what resolves to it, and anything else for the host of that name, whatever its
/// case.
pub proof fn rules_are_understood(h: Seq<char>)
    requires
        texts::is_plain(h),
        ip::ip_of(h) is None,
        ip::ip_of(seq!['*', '.'] + h) is None,
        h[0] != '*',
    ensures
        netpolicy::rule_of(h) == RuleView::Exact(text::lowercase(h)),
        netpolicy::rule_of(seq!['*', '.'] + h) == RuleView::WildcardSuffix(text::lowercase(h)),
{
    reveal_strlit("*.");
    assert("*."@ =~= seq!['*', '.']);
    crate::laws::packages::plain_is_trimmed(h);
    texts::trimmed_texts_stay(h);
    let w = seq!['*', '.'] + h;
    assert(w.last() == h.last());
    texts::trimmed_texts_stay(w);
    texts::stripping_undoes_prefixing("*."@, h, h);
    if h.len() >= 2 {
        assert(h.take(2)[0] == h[0]);
    }
}

/// A rule for a name matches that name in any case, one for the hosts below a
/// domain matches each of them and not the domain, and one for an address what
/// resolves to it.
pub proof fn rules_match_what_they_name(
    h: Seq<char>,
    below: Seq<char>,
    a: IpAddr,
    r: Option<IpAddr>,
    other: Seq<char>,
)
    requires
        forall|i: int| 0 <= i < (below + seq!['.'] + h).len() ==> 'a' <= #[trigger] (below + seq!['.']
            + h)[i] <= 'z' || (below + seq!['.'] + h)[i] == '.',
    ensures
        netpolicy::rule_matches(RuleView::Exact(h), h, r),
        other.len() != h.len() ==> !netpolicy::rule_matches(RuleView::Exact(h), other, r),
        netpolicy::rule_matches(RuleView::WildcardSuffix(h), below + seq!['.'] + h, r),
        !netpolicy::rule_matches(RuleView::WildcardSuffix(h), h, r),
        netpolicy::rule_matches(RuleView::Ip(a), other, Some(a)),
        !netpolicy::rule_matches(RuleView::Ip(a), other, None),
{
    let w = below + seq!['.'] + h;
    assert(vstd::utf8::is_ascii_chars(w)) by {
        assert forall|i: int| 0 <= i < w.len() implies '\0' <= #[trigger] w[i] <= '\u{7f}' by {}
    }
    assert(text::lowercase(w) =~= w);
    assert(w.subrange(below.len() as int, w.len() as int) =~= seq!['.'] + h);
    assert(vstd::utf8::is_ascii_chars(h)) by {
        assert forall|i: int| 0 <= i < h.len() implies '\0' <= #[trigger] h[i] <= '\u{7f}' by {
            assert(w[below.len() + 1 + i] == h[i]);
        }
    }
    assert(text::lowercase(h).len() == h.len());
}

/// The order of the rules: what is always denied, then what a rule denies, then
/// what a rule allows, and then the default.
pub proof fn rules_decide_in_order(
    allow: Seq<RuleView>,
    deny: Seq<RuleView>,
    host: Seq<char>,
    r: Option<IpAddr>,
    k: int,
)
    requires
        text::lowercase(host) != "metadata.google.internal"@,
        text::lowercase(host) != "metadata"@,
        ip::ip_of(host) is None,
        r is None,
    ensures
        0 <= k < deny.len() && netpolicy::rule_matches(deny[k], host, r) ==> netpolicy::decision(
            allow,
            deny,
            Action::Allow,
            host,
            r,
        ) is Deny,
        (forall|i: int| 0 <= i < deny.len() ==> !netpolicy::rule_matches(#[trigger] deny[i], host, r))
            ==> {
            &&& netpolicy::decision(allow, deny, Action::Allow, host, r) == DecisionView::Allow
            &&& 0 <= k < allow.len() && netpolicy::rule_matches(allow[k], host, r)
                ==> netpolicy::decision(allow, deny, Action::Deny, host, r) == DecisionView::Allow
            &&& (forall|i: int|
                0 <= i < allow.len() ==> !netpolicy::rule_matches(#[trigger] allow[i], host, r))
                ==> netpolicy::decision(allow, deny, Action::Deny, host, r) is Deny
        },
{
    netpolicy::first_match_is_first(deny, host, r);
}

/// Names and addresses of a cloud's metadata are denied whatever the rules say,
/// and so is a host that resolves to one.
pub proof fn metadata_is_denied_by_any_way(
    allow: Seq<RuleView>,
    deny: Seq<RuleView>,
    d: Action,
    host: Seq<char>,
    x: u8,
    y: u8,
)
    ensures
        text::lowercase(host) == "metadata.google.internal"@ || text::lowercase(host)
            == "metadata"@ ==> netpolicy::decision(allow, deny, d, host, None) is Deny,
        netpolicy::decision(allow, deny, d, host, Some(IpAddr::V4(169, 254, x, y))) is Deny,
        ip::ip_of(host) == Some(IpAddr::V4(169, 254, x, y)) ==> netpolicy::decision(
            allow,
            deny,
            d,
            host,
            None,
        ) is Deny,
{
}

// ---- the proxy ---------------------------------------------------------------------------------------

/// A target is a host and a port; without a port that can be read it is a host
/// alone, at the usual port.
pub proof fn targets_are_host_and_port(h: Seq<char>, p: u16, usual: u16)
    requires
        lacks(h, ':'),
    ensures
        egress_proxy::host_port(h + seq![':'] + digits::dec(p as nat), usual) == (h, p),
        egress_proxy::host_port(h, usual) == (h, usual),
{
    let d = digits::dec(p as nat);
    digits::dec_reads_back(p as nat);
    let t = h + seq![':'] + d;
    assert(lacks(d, ':'));
    last_colon(h, d);
    assert(t.skip(h.len() as int + 1) =~= d);
    assert(t.take(h.len() as int) =~= h);
    assert(text::is_digit(d[0]));
    no_colon(h);
}

proof fn last_colon(a: Seq<char>, b: Seq<char>)
    requires
        lacks(b, ':'),
    ensures
        pieces::last_index_of(a + seq![':'] + b, ':') == Some(a.len() as int),
    decreases b.len(),
{
    let t = a + seq![':'] + b;
    if b.len() > 0 {
        assert(t.last() == b[b.len() - 1]);
        assert(t.drop_last() =~= a + seq![':'] + b.drop_last());
        last_colon(a, b.drop_last());
    }
}

proof fn no_colon(a: Seq<char>)
    requires
        lacks(a, ':'),
    ensures
        pieces::last_index_of(a, ':') is None,
    decreases a.len(),
{
    if a.len() > 0 {
        assert(a.last() == a[a.len() - 1]);
        no_colon(a.drop_last());
    }
}

/// A denied request is refused, and nothing of it goes on; an allowed one is let
/// through: a tunnel is opened, a request is sent on with its rewritten head.
pub proof fn replies_follow_the_decision(q: RequestView, why: Seq<char>, head: Seq<u8>)
    ensures
        egress_proxy::reply_to(q, DecisionView::Deny(why)) is Refuse,
        q.is_connect ==> egress_proxy::reply_to(q, DecisionView::Allow) is Tunnel,
        !q.is_connect && q.rewritten_head == Some(head) ==> egress_proxy::reply_to(
            q,
            DecisionView::Allow,
        ) == ReplyView::Forward(head),
{
}

/// A refusal says which host and port were denied, and why.
pub proof fn refusals_say_what_was_denied(host: Seq<char>, port: u16, why: Seq<char>)
    ensures
        ({
            let t = egress_proxy::denial(host, port, why);
            &&& text::starts_with(t, "HTTP/1.1 403 Forbidden\r\nContent-Length: "@)
            &&& text::contains(t, host)
            &&& text::contains(t, digits::dec(port as nat))
            &&& text::ends_with(t, why)
        }),
{
    let body = egress_proxy::denial_body(host, port, why);
    let n = digits::dec(vstd::utf8::encode_utf8(body).len());
    let h0 = "HTTP/1.1 403 Forbidden\r\nContent-Length: "@;
    let h = h0 + n + "\r\nConnection: close\r\n\r\n"@;
    let t = h + body;
    let p = digits::dec(port as nat);
    let b0 = "egress denied: "@;
    texts::wholes_hold_their_parts(b0, host, ":"@ + p + " — "@ + why);
    assert(b0 + host + (":"@ + p + " — "@ + why) =~= body);
    texts::wholes_hold_their_parts(b0 + host + ":"@, p, " — "@ + why);
    assert(b0 + host + ":"@ + p + (" — "@ + why) =~= body);
    texts::longer_texts_hold_it(h, body, host);
    texts::longer_texts_hold_it(h, body, p);
    let b1 = b0 + host + ":"@ + p + " — "@;
    assert(t =~= (h + b1) + why);
    texts::wholes_hold_their_parts(h + b1, why, Seq::empty());
    let rest = n + "\r\nConnection: close\r\n\r\n"@ + body;
    assert(t =~= h0 + rest);
    texts::wholes_hold_their_parts(Seq::empty(), h0, rest);
}

/// A request that is sent on asks for the path and the query of its target, and
/// goes to its host and port; one whose target has no host is not sent.
pub proof fn requests_go_to_their_host(
    head: Seq<u8>,
    lines: Seq<Seq<char>>,
    target: Seq<char>,
    u: weburl::UrlView,
    h: Seq<char>,
    why: Seq<char>,
)
    ensures
        u.host == Some(h) ==> (egress_proxy::forward_of(head, lines, target, Ok(u)) matches Ok(q)
            && q.host == h && !q.is_connect && q.rewritten_head is Some && (u.known_port
            matches Some(p) ==> q.port == p) && (u.known_port is None ==> q.port == 80)),
        u.host is None ==> egress_proxy::forward_of(head, lines, target, Ok(u)) is Err,
        egress_proxy::forward_of(head, lines, target, Err(why)) is Err,
        u.query is None && u.path.len() > 0 ==> egress_proxy::origin_form(u) == u.path,
        u.query matches Some(x) ==> egress_proxy::origin_form(u) == u.path + seq!['?'] + x,
        u.query is None && u.path.len() == 0 ==> egress_proxy::origin_form(u) == seq!['/'],
{
}

/// A request to connect names the host and the port of the tunnel, whatever the
/// case of its method; the port is that of secure pages where none is named.
pub proof fn tunnels_go_to_their_target(
    head: Seq<u8>,
    m: Seq<char>,
    h: Seq<char>,
    p: u16,
    v: Seq<char>,
    rest: Seq<char>,
)
    requires
        netpolicy::eq_ignore_ascii_case(m, "CONNECT"@),
        h.len() > 0,
        lacks(h, ':'),
        texts::is_plain(h),
        lacks(m, '\r') && lacks(v, '\r'),
        forall|i: int| 0 <= i < m.len() ==> !text::is_white(#[trigger] m[i]),
    ensures
        egress_proxy::utf8_lossy(head) == m + seq![' '] + (h + seq![':'] + digits::dec(p as nat)) + seq![
            ' ',
        ] + v + "\r\n"@ + rest ==> (egress_proxy::request_of(head) matches Ok(q) && q.is_connect
            && q.host == h && q.port == p && q.head == head && q.rewritten_head is None),
        egress_proxy::utf8_lossy(head) == m + seq![' '] + h + seq![' '] + v + "\r\n"@ + rest ==> (
        egress_proxy::request_of(head) matches Ok(q) && q.is_connect && q.host == h && q.port == 443),
{
    reveal_strlit("CONNECT");
    let d = digits::dec(p as nat);
    digits::dec_reads_back(p as nat);
    targets_are_host_and_port(h, p, 443);
    let t = h + seq![':'] + d;
    assert forall|i: int| 0 <= i < t.len() implies !text::is_white(#[trigger] t[i]) by {
        if i > h.len() {
            assert(t[i] == d[i - h.len() - 1]);
            assert(text::is_digit(d[i - h.len() - 1]));
        }
    }
    first_words(head, m, t, v, rest);
    first_words(head, m, h, v, rest);
}

proof fn first_words(head: Seq<u8>, m: Seq<char>, t: Seq<char>, v: Seq<char>, rest: Seq<char>)
    requires
        m.len() > 0 && t.len() > 0,
        lacks(m, '\r') && lacks(v, '\r'),
        forall|i: int| 0 <= i < m.len() ==> !text::is_white(#[trigger] m[i]),
        forall|i: int| 0 <= i < t.len() ==> !text::is_white(#[trigger] t[i]),
    ensures
        ({
            let s = m + seq![' '] + t + seq![' '] + v + "\r\n"@ + rest;
            let w = pieces::words(
                egress_proxy::piece_or_empty(pieces::split_str(s, "\r\n"@), 0),
            );
            w.len() >= 2 && w[0] == m && w[1] == t
        }),
{
    reveal_strlit("\r\n");
    let s = m + seq![' '] + t + seq![' '] + v + "\r\n"@ + rest;
    let line = m + seq![' '] + t + seq![' '] + v;
    assert(text::is_white('\r'));
    assert(lacks(t, '\r'));
    assert(lacks(line, '\r'));
    texts::parts_stand_between_marks(line, "\r\n"@, rest);
    assert(pieces::split_str(s, "\r\n"@)[0] == line);
    let tail = t + seq![' '] + v;
    assert(line =~= m + seq![' '] + tail);
    texts::words_stand_between_blanks(m, ' ', tail);
    texts::words_stand_between_blanks(t, ' ', v);
}

// ---- confined commands -------------------------------------------------------------------------------

/// A confined command is the command itself, behind what confines it, with its
/// arguments in their order; its traffic goes through the proxy.
pub proof fn confined_commands_are_the_commands(
    program: Seq<char>,
    args: Seq<Seq<char>>,
    h: procsandbox::Host,
    k: int,
)
    requires
        0 <= k < args.len(),
    ensures
        ({
            let r = procsandbox::confined(program, args, h);
            match r {
                Ok(c) => {
                    let n = c.args.len() - args.len();
                    &&& n > 1
                    &&& c.args[n - 1] == program
                    &&& c.args[n - 2] == "--"@
                    &&& c.args[n + k] == args[k]
                    &&& c.program == "sandbox-exec"@ || c.program == "bwrap"@
                    &&& c.env.len() == 6
                    &&& c.env[0].0 == "HTTP_PROXY"@ && c.env[1].0 == "HTTPS_PROXY"@
                    &&& c.env[2].0 == "ALL_PROXY"@ && c.env[0].1 == c.env[1].1 && c.env[1].1
                        == c.env[2].1
                },
                Err(_) => true,
            }
        }),
        h is Other ==> procsandbox::confined(program, args, h) is Err,
        h matches procsandbox::Host::Linux { tool, .. } ==> !tool ==> procsandbox::confined(
            program,
            args,
            h,
        ) is Err,
        h matches procsandbox::Host::Macos { tool, .. } ==> (procsandbox::confined(
            program,
            args,
            h,
        ) is Ok <==> tool),
{
}

/// Under Linux the confined command has no network of its own.
pub proof fn confined_commands_have_no_network(
    program: Seq<char>,
    args: Seq<Seq<char>>,
    relay: String,
    socket: String,
    port: u16,
)
    ensures
        ({
            let h = procsandbox::Host::Linux { tool: true, socket: Some(socket), port, relay };
            procsandbox::confined(program, args, h) matches Ok(c) && c.program == "bwrap"@
                && c.args.contains("--unshare-net"@) && c.args.contains(socket@)
                && c.args.contains(digits::dec(port as nat)) && c.env[0].1 == "http://127.0.0.1:"@
                + digits::dec(port as nat)
        }),
{
    let h = procsandbox::Host::Linux { tool: true, socket: Some(socket), port, relay };
    match procsandbox::confined(program, args, h) {
        Ok(c) => {
            assert(c.args[0] == "--unshare-net"@);
            assert(c.args[13] == socket@);
            assert(c.args[15] == digits::dec(port as nat));
        },
        Err(_) => {},
    }
}

// ---- tools on this machine -----------------------------------------------------------------------------

/// A thread works in a folder of its own below the home, unless a folder was
/// given.
pub proof fn threads_work_in_their_folder(d: Seq<char>, t: Seq<char>)
    ensures
        local::folder_for(Some(d), Some(t)) == SandboxDirView::Given(d),
        local::folder_for(Some(d), None) == SandboxDirView::Given(d),
        local::folder_for(None, Some(t)) == SandboxDirView::InHome(
            seq![".strobes-ai"@, "sandboxes"@, scan::safe_name(t)],
        ),
        local::folder_for(None, None) == SandboxDirView::InHome(seq![".strobes-ai"@, "sandbox"@]),
{
    let e = Seq::<Seq<char>>::empty();
    assert(e.push(".strobes-ai"@).push("sandboxes"@).push(scan::safe_name(t)) =~= seq![
        ".strobes-ai"@,
        "sandboxes"@,
        scan::safe_name(t),
    ]);
    assert(e.push(".strobes-ai"@).push("sandbox"@) =~= seq![".strobes-ai"@, "sandbox"@]);
}

/// A call names its tool: a command is run as it is given, code in its language
/// (Python where none is told), a browser's calls go to the browser, and a tool
/// that is not known is refused by name.
pub proof fn calls_are_told_apart(input: JsonView, cmd: Seq<char>, lang: Seq<char>, rest: Seq<char>)
    requires
        json::field(input, "command"@) == Some(JsonView::Str(cmd)),
        json::field(input, "code"@) == Some(JsonView::Str(cmd)),
    ensures
        local::call_of("execute_command"@, input) == LocalCallView::Shell(cmd),
        json::field(input, "language"@) == Some(JsonView::Str(lang)) ==> local::call_of(
            "execute_code"@,
            input,
        ) == (LocalCallView::Code { code: cmd, language: lang }),
        json::field(input, "language"@) is None ==> local::call_of("execute_code"@, input) == (
        LocalCallView::Code { code: cmd, language: "python"@ }),
        local::call_of("workspace_get_meta"@, input) == LocalCallView::Meta,
        local::call_of("todo_read"@, input) == LocalCallView::TodoRead,
        local::call_of("todo_write"@, input) is TodoWrite,
        local::call_of("browser_"@ + rest, input) == LocalCallView::Browser,
        local::call_of("format_disk"@, input) is Unsupported,
{
    reveal_strlit("execute_command");
    reveal_strlit("execute_code");
    reveal_strlit("workspace_get_meta");
    reveal_strlit("todo_write");
    reveal_strlit("todo_read");
    reveal_strlit("browser_");
    reveal_strlit("format_disk");
    assert("execute_command"@.len() == 15 && "execute_command"@[0] == 'e');
    assert("execute_code"@.len() == 12 && "execute_code"@[0] == 'e');
    assert("workspace_get_meta"@.len() == 18 && "workspace_get_meta"@[0] == 'w');
    assert("todo_write"@.len() == 10 && "todo_write"@[0] == 't');
    assert("todo_read"@.len() == 9 && "todo_read"@[0] == 't');
    assert("browser_"@[0] == 'b');
    assert("format_disk"@[0] == 'f');
    let b = "browser_"@ + rest;
    assert(b[0] == 'b');
    texts::wholes_hold_their_parts(Seq::empty(), "browser_"@, rest);
    if text::starts_with("format_disk"@, "browser_"@) {
        assert("format_disk"@.subrange(0, 8)[0] == 'f');
    }
}

/// Code is run by the program for its language, whatever the case of its name;
/// a language that is not known is not run.
pub proof fn languages_have_their_program(l: Seq<char>, windows: bool)
    ensures
        text::lowercase(l) == "python"@ || text::lowercase(l) == "py"@ ==> local::launcher_of(
            l,
            windows,
        ) == Some(
            (
                if windows {
                    "python"@
                } else {
                    "python3"@
                },
                ".py"@,
            ),
        ),
        text::lowercase(l) == "bash"@ || text::lowercase(l) == "sh"@ || text::lowercase(l)
            == "shell"@ ==> local::launcher_of(l, windows) == Some(("bash"@, ".sh"@)),
        text::lowercase(l) == "javascript"@ || text::lowercase(l) == "js"@ || text::lowercase(l)
            == "node"@ ==> local::launcher_of(l, windows) == Some(("node"@, ".js"@)),
        text::lowercase(l) == "ruby"@ ==> local::launcher_of(l, windows) == Some(
            ("ruby"@, ".rb"@),
        ),
        text::lowercase(l) == "cobol"@ ==> local::launcher_of(l, windows) is None,
{
    reveal_strlit("python");
    reveal_strlit("python3");
    reveal_strlit("py");
    reveal_strlit("bash");
    reveal_strlit("sh");
    reveal_strlit("shell");
    reveal_strlit("javascript");
    reveal_strlit("js");
    reveal_strlit("node");
    reveal_strlit("ruby");
    reveal_strlit("cobol");
    assert("python"@.len() == 6 && "python3"@.len() == 7 && "javascript"@.len() == 10);
    assert("py"@.len() == 2 && "py"@[0] == 'p');
    assert("sh"@.len() == 2 && "sh"@[0] == 's');
    assert("js"@.len() == 2 && "js"@[0] == 'j');
    assert("bash"@.len() == 4 && "bash"@[0] == 'b');
    assert("node"@.len() == 4 && "node"@[0] == 'n');
    assert("ruby"@.len() == 4 && "ruby"@[0] == 'r');
    assert("shell"@.len() == 5 && "shell"@[0] == 's');
    assert("cobol"@.len() == 5 && "cobol"@[0] == 'c');
}

/// What a command wrote is its output and then its errors, on a line of their own,
/// without the white space at the end.
pub proof fn outputs_come_before_errors(out: Seq<char>, err: Seq<char>)
    requires
        out.len() > 0,
        !text::is_white(out.last()),
        err.len() > 0,
        !text::is_white(err.last()),
        !pieces::is_blank(err),
    ensures
        local::written(out, err) == out + seq!['\n'] + err,
        local::written(out, Seq::empty()) == out,
        local::written(Seq::empty(), err) == err,
{
    reveal_strlit("\n");
    assert("\n"@ =~= seq!['\n']);
    pieces::blank_is_all_white(Seq::empty());
    let t = out + "\n"@ + err;
    assert(t.last() == err.last());
}

/// A finished call gives its output and the number it ended with; a failed one its
/// error.
pub proof fn calls_give_output_or_error(t: Seq<char>, code: Option<i32>)
    ensures
        local::gave(t, code).output == t,
        local::gave(t, code).error is None,
        local::gave(t, code).exit_code == code,
        local::failed(t, code).error == Some(t),
        local::failed(t, code).exit_code == code,
        local::failed(t, code).output.len() == 0,
{
}

// ---- the pack of tools -----------------------------------------------------------------------------------

/// A switch is on unless it says no.
pub proof fn switches_are_on_unless_they_say_no(v: Seq<char>)
    ensures
        ({
            let l = text::lowercase(pieces::trim(v));
            &&& l.len() == 0 || l == "0"@ || l == "false"@ || l == "no"@ || l == "off"@
                ==> !pack::is_truthy(v)
            &&& l == "1"@ || l == "true"@ || l == "yes"@ || l == "on"@ ==> pack::is_truthy(v)
        }),
{
    reveal_strlit("0");
    reveal_strlit("false");
    reveal_strlit("no");
    reveal_strlit("off");
    reveal_strlit("1");
    reveal_strlit("true");
    reveal_strlit("yes");
    reveal_strlit("on");
    assert("0"@.len() == 1 && "0"@[0] == '0');
    assert("1"@.len() == 1 && "1"@[0] == '1');
    assert("no"@.len() == 2 && "no"@[0] == 'n');
    assert("on"@.len() == 2 && "on"@[0] == 'o');
    assert("false"@.len() == 5 && "true"@.len() == 4);
    assert("off"@.len() == 3 && "off"@[0] == 'o');
    assert("yes"@.len() == 3 && "yes"@[0] == 'y');
}

/// The places where a pack may lie, the first that was given first: the pack
/// itself, the folder of packs, and then the two folders in the home.
pub proof fn packs_are_looked_for_in_order(p: Seq<char>, r: Seq<char>, h: Seq<char>, t: Seq<char>)
    requires
        !pieces::is_blank(p),
        !pieces::is_blank(r),
    ensures
        ({
            let v = pack::candidate_order(Some(p), Some(r), Some(h), t);
            &&& v.len() == 4
            &&& v[0].base == p && v[0].parts.len() == 0
            &&& v[1].base == r && v[1].parts == seq![t]
            &&& v[2].base == h && v[2].parts == seq![".strobes-ai"@, "pack"@, t]
            &&& v[3].base == h && v[3].parts == seq![".strobes-shell-agent"@, "pack"@, t]
        }),
        pack::candidate_order(None, None, None, t).len() == 0,
        pack::candidate_order(None, Some(r), None, t).len() == 1,
{
    let e = Seq::<Seq<char>>::empty();
    assert(e.push(t) =~= seq![t]);
    assert(e.push(".strobes-ai"@).push("pack"@).push(t) =~= seq![".strobes-ai"@, "pack"@, t]);
    assert(e.push(".strobes-shell-agent"@).push("pack"@).push(t) =~= seq![
        ".strobes-shell-agent"@,
        "pack"@,
        t,
    ]);
}

/// The first place that holds a pack is used, unless packs are switched off.
pub proof fn the_first_pack_is_used(v: Seq<bool>, k: int)
    requires
        0 <= k < v.len(),
        v[k],
        forall|j: int| 0 <= j < k ==> !#[trigger] v[j],
    ensures
        pack::chosen_pack(None, v) == Some(k),
        pack::chosen_pack(Some("1"@), v) is None,
{
    found_first(v, k, 0);
    reveal_strlit("1");
    reveal_strlit("0");
    reveal_strlit("false");
    reveal_strlit("no");
    reveal_strlit("off");
    let one = "1"@;
    assert(one =~= seq!['1']);
    texts::trimmed_texts_stay(one);
    assert(vstd::utf8::is_ascii_chars(one));
    assert(text::lowercase(one) =~= one);
    assert("0"@[0] == '0');
    assert("false"@.len() == 5 && "no"@.len() == 2 && "off"@.len() == 3);
}

proof fn found_first(v: Seq<bool>, k: int, from: int)
    requires
        0 <= from <= k < v.len(),
        v[k],
        forall|j: int| 0 <= j < k ==> !#[trigger] v[j],
    ensures
        pack::first_true(v, from) == Some(k),
    decreases k - from,
{
    if from < k {
        found_first(v, k, from + 1);
    }
}

/// What a pack adds to the path comes first, its programs before its Python.
pub proof fn packs_come_first_in_the_path(b: Seq<char>, p: Seq<char>, e: Seq<char>)
    requires
        e.len() > 0,
    ensures
        pack::prefix_text(Some(b), Some(p), false) == Some(b + ":"@ + p),
        pack::prefix_text(Some(b), Some(p), true) == Some(b + ";"@ + p),
        pack::prefix_text(Some(b), None, false) == Some(b),
        pack::prefix_text(None, Some(p), false) == Some(p),
        pack::prefix_text(None, None, false) is None,
        pack::path_text(Some(p), Some(e), false) == Some(p + ":"@ + e),
        pack::path_text(Some(p), None, false) == Some(p),
        pack::path_text(None, Some(e), false) is None,
{
}

/// A file is refused where its digest is not the one that was published, and is
/// taken where it is.
pub proof fn files_with_other_digests_are_refused(
    file: Seq<char>,
    name: Seq<char>,
    digest: Seq<u8>,
    what: Seq<char>,
)
    ensures
        pack::published_digest(file).len() > 0 && pack::published_digest(file) != pack::hex(digest)
            ==> pack::refusal(file, name, digest, what) is Some,
        pack::published_digest(file) == pack::hex(digest) ==> pack::refusal(
            file,
            name,
            digest,
            what,
        ) is None,
{
}

/// The digest that was published is the first word of its file, in small letters.
pub proof fn published_digests_come_first(d: Seq<char>, rest: Seq<char>)
    requires
        texts::is_plain(d),
        forall|i: int|
            0 <= i < d.len() ==> ('0' <= #[trigger] d[i] <= '9') || ('a' <= d[i] <= 'f'),
    ensures
        pack::published_digest(d + seq![' '] + rest) == d,
{
    crate::laws::packages::plain_is_trimmed(d);
    texts::words_stand_between_blanks(d, ' ', rest);
    let w = pieces::words(d + seq![' '] + rest);
    assert(w[0] == d);
    assert(vstd::utf8::is_ascii_chars(d)) by {
        assert forall|i: int| 0 <= i < d.len() implies '\0' <= #[trigger] d[i] <= '\u{7f}' by {}
    }
    assert(text::lowercase(d) =~= d);
}

/// Bytes are written as two hexadecimal digits each, the high one first.
pub proof fn bytes_are_written_in_hex(b: Seq<u8>, x: u8)
    ensures
        pack::hex(b.push(x)).len() == pack::hex(b).len() + 2,
        pack::hex(b.push(x)).take(pack::hex(b).len() as int) == pack::hex(b),
        x < 16 ==> pack::hex(b.push(x))[pack::hex(b).len() as int] == '0',
        x % 16 < 10 ==> pack::hex(b.push(x)).last() as int == x % 16 + 48,
        x % 16 >= 10 ==> pack::hex(b.push(x)).last() as int == x % 16 - 10 + 97,
        x / 16 < 10 ==> pack::hex(b.push(x))[pack::hex(b).len() as int] as int == x / 16 + 48,
        x / 16 >= 10 ==> pack::hex(b.push(x))[pack::hex(b).len() as int] as int == x / 16 - 10 + 97,
{
    assert(b.push(x).drop_last() =~= b);
    let h = pack::hex(b.push(x));
    assert(h.take(pack::hex(b).len() as int) =~= pack::hex(b));
}

// ---- the bridge and the browser --------------------------------------------------------------------------

/// The bridge is published for these machines, under their names, and for no
/// others.
pub proof fn bridges_are_published_for_some_machines()
    ensures
        bridge::asset_of("linux"@, "x86_64"@) matches Ok(s) && s == "strobes-shell-agent-"@
            + "linux"@ + "-"@ + "amd64"@,
        bridge::asset_of("linux"@, "aarch64"@) matches Ok(s) && s == "strobes-shell-agent-"@
            + "linux"@ + "-"@ + "arm64"@,
        bridge::asset_of("macos"@, "aarch64"@) matches Ok(s) && s == "strobes-shell-agent-"@
            + "macos"@ + "-"@ + "arm64"@,
        bridge::asset_of("windows"@, "x86_64"@) matches Ok(s) && s == "strobes-shell-agent-"@
            + "windows"@ + "-"@ + "amd64"@ + ".exe"@,
        bridge::asset_of("macos"@, "x86_64"@) is Err,
        bridge::asset_of("freebsd"@, "x86_64"@) is Err,
{
    reveal_strlit("linux");
    reveal_strlit("macos");
    reveal_strlit("windows");
    reveal_strlit("freebsd");
    reveal_strlit("x86_64");
    reveal_strlit("aarch64");
    reveal_strlit("arm64");
    reveal_strlit("amd64");
    assert("linux"@.len() == 5 && "linux"@[0] == 'l');
    assert("macos"@.len() == 5 && "macos"@[0] == 'm');
    assert("windows"@.len() == 7 && "windows"@[0] == 'w');
    assert("freebsd"@.len() == 7 && "freebsd"@[0] == 'f');
    assert("x86_64"@.len() == 6 && "aarch64"@.len() == 7);
    assert("arm64"@.len() == 5 && "arm64"@[1] == 'r' && "amd64"@[1] == 'm');
    let e = Seq::<char>::empty();
    let base = "strobes-shell-agent-"@;
    assert(base + "linux"@ + "-"@ + "amd64"@ + e =~= base + "linux"@ + "-"@ + "amd64"@);
    assert(base + "linux"@ + "-"@ + "arm64"@ + e =~= base + "linux"@ + "-"@ + "arm64"@);
    assert(base + "macos"@ + "-"@ + "arm64"@ + e =~= base + "macos"@ + "-"@ + "arm64"@);
}

/// The address of a file is that of the first asset of its name.
pub proof fn assets_are_found_by_name(
    release: JsonView,
    v: Seq<JsonView>,
    k: int,
    name: Seq<char>,
    url: Seq<char>,
)
    requires
        json::field(release, "assets"@) == Some(JsonView::Arr(v)),
        0 <= k < v.len(),
        json::field(v[k], "name"@) == Some(JsonView::Str(name)),
        forall|j: int|
            0 <= j < k ==> json::field(#[trigger] v[j], "name"@) != Some(JsonView::Str(name)),
        json::field(v[k], "browser_download_url"@) == Some(JsonView::Str(url)),
    ensures
        bridge::url_in(release, name) == Ok::<Seq<char>, Seq<char>>(url),
{
    asset_found(v, name, k, 0);
}

proof fn asset_found(v: Seq<JsonView>, name: Seq<char>, k: int, from: int)
    requires
        0 <= from <= k < v.len(),
        json::field(v[k], "name"@) == Some(JsonView::Str(name)),
        forall|j: int|
            0 <= j < k ==> json::field(#[trigger] v[j], "name"@) != Some(JsonView::Str(name)),
    ensures
        bridge::asset_at(v, name, from) == Some(v[k]),
    decreases k - from,
{
    if from < k {
        asset_found(v, name, k, from + 1);
    }
}

/// A call of the browser is understood by its name: where to go, what to click,
/// what to type and where, how far to scroll and what to run.
pub proof fn browser_calls_are_understood(
    input: JsonView,
    u: Seq<char>,
    sel: Seq<char>,
    t: Seq<char>,
    n: Seq<char>,
    k: int,
)
    requires
        json::field(input, "url"@) == Some(JsonView::Str(u)),
        json::field(input, "selector"@) == Some(JsonView::Str(sel)),
        json::field(input, "text"@) == Some(JsonView::Str(t)),
        json::field(input, "script"@) == Some(JsonView::Str(t)),
        u.len() > 0,
        json::field(input, "amount"@) == Some(JsonView::Num(n)),
        digits::parse_i64(n) == Some(k),
    ensures
        chrome::step_of("browser_init"@, input) == BrowserStepView::Ready,
        chrome::step_of("browser_navigate"@, input) == BrowserStepView::Navigate(u),
        chrome::step_of("browser_snapshot"@, input) == BrowserStepView::Snapshot,
        chrome::step_of("browser_click"@, input) == BrowserStepView::Click(sel),
        chrome::step_of("browser_type"@, input) == (BrowserStepView::Type { selector: sel, text: t }),
        chrome::step_of("browser_execute_script"@, input) == BrowserStepView::Script(t),
        chrome::step_of("browser_screenshot"@, input) == BrowserStepView::Screenshot,
        chrome::step_of("browser_get_cookies"@, input) == BrowserStepView::Cookies,
        json::field(input, "direction"@) == Some(JsonView::Str("up"@)) ==> (chrome::step_of(
            "browser_scroll"@,
            input,
        ) matches BrowserStepView::Scroll { dy, .. } && dy == -k),
        json::field(input, "direction"@) is None ==> (chrome::step_of("browser_scroll"@, input)
            matches BrowserStepView::Scroll { dy, .. } && dy == k),
{
    reveal_strlit("browser_init");
    reveal_strlit("browser_navigate");
    reveal_strlit("browser_snapshot");
    reveal_strlit("browser_click");
    reveal_strlit("browser_type");
    reveal_strlit("browser_scroll");
    reveal_strlit("browser_execute_script");
    reveal_strlit("browser_screenshot");
    reveal_strlit("browser_get_cookies");
    reveal_strlit("up");
    assert("up"@.len() == 2);
    assert("browser_init"@.len() == 12 && "browser_init"@[8] == 'i');
    assert("browser_navigate"@.len() == 16 && "browser_navigate"@[8] == 'n');
    assert("browser_snapshot"@.len() == 16 && "browser_snapshot"@[8] == 's');
    assert("browser_click"@.len() == 13);
    assert("browser_type"@.len() == 12 && "browser_type"@[8] == 't');
    assert("browser_scroll"@.len() == 14);
    assert("browser_execute_script"@.len() == 22);
    assert("browser_screenshot"@.len() == 18);
    assert("browser_get_cookies"@.len() == 19);
}

/// A browser is started on its port with a profile of its own, and without a
/// window where none is wanted.
pub proof fn browsers_are_started_on_their_port(port: u16, profile: Seq<char>)
    ensures
        ({
            let v = chrome::launch_view(port, profile, true);
            let w = chrome::launch_view(port, profile, false);
            &&& v[0] == "--remote-debugging-port="@ + digits::dec(port as nat)
            &&& v[1] == "--user-data-dir="@ + profile
            &&& v.last() == "--headless=new"@
            &&& w[0] == v[0] && w[1] == v[1]
            &&& w.len() == v.len() - 1
        }),
{
}

/// Requests for the parts of a page are not recorded, nor those within the
/// browser.
pub proof fn parts_of_a_page_are_not_recorded(a: Seq<char>)
    ensures
        browser::is_skipped(a + ".js"@),
        browser::is_skipped(a + ".css"@),
        browser::is_skipped(a + ".png"@),
        browser::is_skipped(a + ".svg"@),
        browser::is_skipped(a + ".woff2"@),
        browser::is_skipped("data:"@ + a),
        browser::is_skipped("blob:"@ + a),
        browser::is_skipped("chrome:"@ + a),
{
    let e = Seq::<char>::empty();
    texts::wholes_hold_their_parts(a, ".js"@, e);
    texts::wholes_hold_their_parts(a, ".css"@, e);
    texts::wholes_hold_their_parts(a, ".png"@, e);
    texts::wholes_hold_their_parts(a, ".svg"@, e);
    texts::wholes_hold_their_parts(a, ".woff2"@, e);
    texts::wholes_hold_their_parts(e, "data:"@, a);
    texts::wholes_hold_their_parts(e, "blob:"@, a);
    texts::wholes_hold_their_parts(e, "chrome:"@, a);
}

/// A recorded request is told with its method, address, headers and body, and with
/// what came back where something did.
pub proof fn recorded_requests_are_told(e: NetView, st: i64, mime: Seq<char>)
    ensures
        ({
            let r = browser::entry_value(e);
            &&& says(r, "requestId"@, e.request_id)
            &&& says(r, "method"@, e.method)
            &&& says(r, "url"@, e.url)
            &&& holds(r, "headers"@, e.headers)
            &&& says(r, "body"@, e.body)
            &&& holds(r, "bodyTruncated"@, JsonView::Bool(e.truncated))
            &&& e.status == Some(st) ==> holds(r, "status"@, JsonView::Num(digits::dec_int(st as int)))
            &&& e.mime == Some(mime) ==> says(r, "mimeType"@, mime)
        }),
{
    match browser::entry_value(e) {
        JsonView::Obj(o) => {
            assert(o[0] == ("requestId"@, JsonView::Str(e.request_id)));
            assert(o[1] == ("method"@, JsonView::Str(e.method)));
            assert(o[2] == ("url"@, JsonView::Str(e.url)));
            assert(o[3] == ("headers"@, e.headers));
            assert(o[5] == ("body"@, JsonView::Str(e.body)));
            assert(o[6] == ("bodyTruncated"@, JsonView::Bool(e.truncated)));
            if e.status == Some(st) {
                assert(o[7] == ("status"@, JsonView::Num(digits::dec_int(st as int))));
            }
            if e.mime is Some {
                assert(o.contains(o[o.len() - 1]));
                assert(o[o.len() - 1].0 == "mimeType"@);
            }
        },
        _ => {},
    }
}

/// On windows the parts of a path stand apart by semicolons.
pub proof fn paths_are_parted_as_the_system_does(p: Seq<char>, e: Seq<char>)
    requires
        e.len() > 0,
    ensures
        pack::path_text(Some(p), Some(e), true) == Some(p + ";"@ + e),
        pack::path_text(Some(p), Some(e), false) == Some(p + ":"@ + e),
        pack::platform("linux"@, "arm64"@) == "linux"@ + "-"@ + "aarch64"@,
        p != "arm64"@ ==> pack::platform(e, p) == e + "-"@ + p,
{
}

} // verus!
