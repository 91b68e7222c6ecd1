//! Settings and commands: profiles, addresses, versions, models and requests.

use vstd::prelude::*;
use crate::api;
use crate::cli;
use crate::config;
use crate::config::ProfileView;
use crate::digits;
use crate::editor;
use crate::ip;
use crate::ip::IpAddr;
use crate::json::JsonView;
use crate::laws::results::says;
use crate::laws::texts;
use crate::laws::texts::lacks;
use crate::listing;
use crate::pieces;
use crate::pulse;
use crate::remote;
use crate::api::WorkflowTemplate;
use crate::requests;
use crate::text;
use crate::weburl::UrlView;

verus! {

broadcast use vstd::seq::group_seq_axioms;

/// The service is reached below `/v1` where it is deployed directly, and below
/// `/api/v1` otherwise.
pub proof fn deployments_have_their_prefix(p: ProfileView)
    ensures
        p.deployment == "direct"@ || p.deployment == "v1"@ ==> config::prefix_of(p) == "/v1"@,
        p.deployment != "direct"@ && p.deployment != "v1"@ ==> config::prefix_of(p) == "/api/v1"@,
{
}

/// The address of the service is the one that was set, with `https` where it names
/// no scheme and without slashes at its end; an empty one is an error.
pub proof fn addresses_are_completed(p: ProfileView, host: Seq<char>)
    requires
        texts::is_plain(host),
    ensures
        p.base_url == host ==> config::origin_of(p) == Ok::<Seq<char>, Seq<char>>(
            "https://"@ + host,
        ),
        p.base_url == "http://"@ + host + seq!['/'] ==> config::origin_of(p) == Ok::<
            Seq<char>,
            Seq<char>,
        >("http://"@ + host),
        p.base_url.len() == 0 ==> config::origin_of(p) is Err,
{
    bare_host(host);
    host_with_scheme(host);
    texts::trimmed_texts_stay(Seq::empty());
}

proof fn scheme_marks()
    ensures
        "://"@ == seq![':', '/', '/'],
        "http://"@ == seq!['h', 't', 't', 'p', ':', '/', '/'],
{
    reveal_strlit("://");
    reveal_strlit("http://");
    assert("://"@ =~= seq![':', '/', '/']);
    assert("http://"@ =~= seq!['h', 't', 't', 'p', ':', '/', '/']);
}

proof fn bare_host(host: Seq<char>)
    requires
        texts::is_plain(host),
    ensures
        pieces::trim_end_char(pieces::trim(host), '/') == host,
        !text::contains(host, "://"@),
{
    scheme_marks();
    crate::laws::packages::plain_is_trimmed(host);
    texts::plain_lacks(host, ':');
    assert(host.last() == host[host.len() - 1]);
    texts::trimmed_texts_stay(host);
    texts::lacking_texts_have_no_part(host, "://"@, 0);
}

proof fn host_with_scheme(host: Seq<char>)
    requires
        texts::is_plain(host),
    ensures
        ({
            let u = "http://"@ + host;
            &&& pieces::trim_end_char(pieces::trim(u + seq!['/']), '/') == u
            &&& text::contains(u, "://"@)
            &&& u.len() > 0
        }),
{
    scheme_marks();
    assert("http://"@[0] == 'h');
    ends_in_slash("http://"@, host);
    marks_are_held(host);
}

proof fn ends_in_slash(pre: Seq<char>, host: Seq<char>)
    requires
        texts::is_plain(host),
        pre.len() > 0,
        pre[0] == 'h',
    ensures
        pieces::trim_end_char(pieces::trim(pre + host + seq!['/']), '/') == pre + host,
{
    let u = pre + host;
    let w = u + seq!['/'];
    assert(u.last() == host[host.len() - 1]);
    texts::ends_come_off(u, '/');
    assert(w[0] == 'h' && w.last() == '/');
    texts::trimmed_texts_stay(w);
}

proof fn marks_are_held(host: Seq<char>)
    ensures
        text::contains("http://"@ + host, "://"@),
{
    reveal_strlit("http");
    scheme_marks();
    assert("http://"@ =~= "http"@ + "://"@);
    texts::texts_hold_themselves("://"@);
    texts::longer_texts_hold_it("http"@, "://"@, "://"@);
    texts::longer_texts_hold_it("http://"@, host, "://"@);
}

/// Events come over a secure socket where the service is reached over `https`, and
/// a plain one otherwise, at the same host and port.
pub proof fn sockets_are_as_secure_as_the_service(u: UrlView, h: Seq<char>, p: u16)
    requires
        u.host == Some(h),
    ensures
        u.scheme == "https"@ && u.port is None ==> config::socket_origin(u) == Ok::<
            Seq<char>,
            Seq<char>,
        >("wss"@ + "://"@ + h),
        u.scheme == "http"@ && u.port is None ==> config::socket_origin(u) == Ok::<
            Seq<char>,
            Seq<char>,
        >("ws"@ + "://"@ + h),
        u.scheme == "https"@ && u.port == Some(p) ==> config::socket_origin(u) == Ok::<
            Seq<char>,
            Seq<char>,
        >("wss"@ + "://"@ + h + (":"@ + digits::dec(p as nat))),
{
    reveal_strlit("https");
    reveal_strlit("http");
    assert("https"@.len() == 5 && "http"@.len() == 4);
    let e = Seq::<char>::empty();
    assert("wss"@ + "://"@ + h + e =~= "wss"@ + "://"@ + h);
    assert("ws"@ + "://"@ + h + e =~= "ws"@ + "://"@ + h);
}

/// The socket of a thread is named by the organisation, the thread and the key.
pub proof fn sockets_name_their_thread(origin: Seq<char>, p: ProfileView, t: Seq<char>)
    ensures
        ({
            let u = config::pulse_text(origin, p, t);
            &&& text::starts_with(u, origin + "/ws/"@ + p.org_id + "/pulse/"@ + t)
            &&& text::ends_with(u, p.master_key)
        }),
{
    let a = origin + "/ws/"@ + p.org_id + "/pulse/"@ + t;
    let b = "/?api_key="@ + p.master_key;
    assert(a + b =~= config::pulse_text(origin, p, t));
    texts::wholes_hold_their_parts(Seq::empty(), a, b);
    texts::wholes_hold_their_parts(a + "/?api_key="@, p.master_key, Seq::empty());
}

/// A profile is complete with an address, an organisation and a key.
pub proof fn profiles_need_three_things(p: ProfileView)
    ensures
        config::complete(p) <==> p.base_url.len() > 0 && p.org_id.len() > 0 && p.master_key.len()
            > 0,
{
}

/// What the environment sets takes the place of what the profile says, and nothing
/// else changes.
pub proof fn the_environment_comes_first(p: ProfileView, o: config::Overrides)
    ensures
        ({
            let r = config::overridden(p, o);
            &&& o.base_url matches Some(s) ==> r.base_url == s@
            &&& o.base_url is None ==> r.base_url == p.base_url
            &&& o.org_id matches Some(s) ==> r.org_id == s@
            &&& o.org_id is None ==> r.org_id == p.org_id
            &&& o.master_key matches Some(s) ==> r.master_key == s@
            &&& o.master_key is None ==> r.master_key == p.master_key
            &&& o.deployment matches Some(s) ==> r.deployment == s@
            &&& o.deployment is None ==> r.deployment == p.deployment
            &&& r.workspace_id == p.workspace_id && r.thread_id == p.thread_id && r.verify_tls
                == p.verify_tls
        }),
{
}

/// A key is shown by its first four and last four letters, one of up to eight as
/// stars, and none at all as unset.
pub proof fn keys_are_not_shown(s: Seq<char>)
    requires
        forall|i: int| 0 <= i < s.len() ==> '\0' <= #[trigger] s[i] <= '\u{7f}',
    ensures
        s.len() == 0 ==> config::redacted(s) == "(unset)"@,
        0 < s.len() <= 8 ==> config::redacted(s) == pieces::repeat("*"@, s.len()),
        s.len() > 8 ==> config::redacted(s) == s.take(4) + "…"@ + s.skip(s.len() - 4),
{
    assert(vstd::utf8::is_ascii_chars(s));
    vstd::utf8::is_ascii_chars_encode_utf8(s);
    if s.len() > 8 {
        ascii_places(s, 4);
        ascii_places(s, s.len() - 4);
        editor::position_is_unique(s, 4, 4);
        editor::position_is_unique(s, (s.len() - 4) as nat, s.len() - 4);
    }
}

proof fn ascii_places(s: Seq<char>, k: int)
    requires
        vstd::utf8::is_ascii_chars(s),
        0 <= k <= s.len(),
    ensures
        editor::offset(s, k) == k,
    decreases k,
{
    if k > 0 {
        ascii_places(s, k - 1);
        assert('\0' <= s[k - 1] <= '\u{7f}');
    }
}

/// A line of the hosts file names the hosts behind its address, whatever their
/// case; a remark names none.
pub proof fn hosts_are_named_behind_their_address(w: Seq<Seq<char>>, host: Seq<char>, k: int)
    requires
        1 <= k < w.len(),
        w[k] == host,
    ensures
        config::names_host(w, host, 1),
{
    named_from(w, host, k, 1);
}

proof fn named_from(w: Seq<Seq<char>>, host: Seq<char>, k: int, from: int)
    requires
        1 <= from <= k < w.len(),
        w[k] == host,
    ensures
        config::names_host(w, host, from),
    decreases k - from,
{
    if from < k {
        named_from(w, host, k, from + 1);
    }
}

/// The first line of the hosts file that gives a host an address is the one that
/// counts.
pub proof fn the_first_line_counts(lines: Seq<Seq<char>>, host: Seq<char>, k: int, a: IpAddr, from: int)
    requires
        0 <= from <= k < lines.len(),
        config::line_address(lines[k], host) == Some(a),
        forall|j: int| 0 <= j < k ==> config::line_address(#[trigger] lines[j], host) is None,
    ensures
        config::address_from(lines, host, from) == Some(a),
    decreases k - from,
{
    if from < k {
        the_first_line_counts(lines, host, k, a, from + 1);
    }
}

/// An address that was set for a host is the one that is dialled; one set for
/// another host is not, and without one the hosts file is read for local names
/// only.
pub proof fn set_addresses_are_dialled(host: Seq<char>, x: IpAddr, raw: Seq<char>, hosts: Seq<char>)
    requires
        raw.len() > 0,
        lacks(raw, ':'),
        !text::is_white(raw[0]) && !text::is_white(raw.last()),
        ip::ip_of(raw) == Some(x),
        lacks(host, ':'),
        host.len() > 0,
        !text::is_white(host[0]),
    ensures
        config::override_for(host, Some(raw), hosts) == Some(x),
        config::override_for(host, Some(host + seq![':'] + raw), hosts) == Some(x),
        !text::ends_with(host, ".local"@) ==> config::override_for(host, None, hosts) is None,
{
    texts::trimmed_texts_stay(raw);
    pieces::blank_is_all_white(raw);
    no_mark(raw);
    let t = host + seq![':'] + raw;
    assert(t[0] == host[0] && t.last() == raw.last());
    texts::trimmed_texts_stay(t);
    pieces::blank_is_all_white(t);
    last_mark(host, raw);
    assert(t.take(host.len() as int) =~= host);
    assert(t.skip(host.len() as int + 1) =~= raw);
}

proof fn no_mark(a: Seq<char>)
    requires
        lacks(a, ':'),
    ensures
        pieces::last_index_of(a, ':') is None,
    decreases a.len(),
{
    if a.len() > 0 {
        assert(a.last() == a[a.len() - 1]);
        no_mark(a.drop_last());
    }
}

proof fn last_mark(a: Seq<char>, b: Seq<char>)
    requires
        lacks(b, ':'),
    ensures
        pieces::last_index_of(a + seq![':'] + b, ':') == Some(a.len() as int),
    decreases b.len(),
{
    let t = a + seq![':'] + b;
    if b.len() > 0 {
        assert(t.last() == b[b.len() - 1]);
        assert(t.drop_last() =~= a + seq![':'] + b.drop_last());
        last_mark(a, b.drop_last());
    }
}

// ---- versions -------------------------------------------------------------------------------------

proof fn whole_number(n: nat)
    requires
        n <= u64::MAX,
    ensures
        cli::part_number(digits::dec(n)) == n,
        lacks(digits::dec(n), '.'),
{
    let d = digits::dec(n);
    digits::dec_reads_back(n);
    run_of_digits(d);
    assert(d.take(d.len() as int) =~= d);
    assert(text::is_digit(d[0]));
}

proof fn run_of_digits(d: Seq<char>)
    requires
        digits::all_digits(d),
    ensures
        cli::digit_run(d) == d.len(),
    decreases d.len(),
{
    if d.len() > 0 {
        assert(text::is_digit(d[0]));
        assert forall|i: int| 0 <= i < d.skip(1).len() implies text::is_digit(#[trigger] d.skip(1)[i]) by {
            assert(d.skip(1)[i] == d[i + 1]);
        }
        run_of_digits(d.skip(1));
    }
}

/// The text of a version of three numbers.
pub open spec fn version(a: nat, b: nat, c: nat) -> Seq<char> {
    digits::dec(a) + seq!['.'] + (digits::dec(b) + seq!['.'] + digits::dec(c))
}

proof fn version_parts(a: nat, b: nat, c: nat)
    requires
        a <= u64::MAX && b <= u64::MAX && c <= u64::MAX,
    ensures
        pieces::split_char(version(a, b, c), '.') == seq![digits::dec(a), digits::dec(b), digits::dec(c)],
        cli::version_part(version(a, b, c), 0) == a,
        cli::version_part(version(a, b, c), 1) == b,
        cli::version_part(version(a, b, c), 2) == c,
{
    whole_number(a);
    whole_number(b);
    whole_number(c);
    let x = digits::dec(a);
    let y = digits::dec(b);
    let z = digits::dec(c);
    texts::pieces_stand_between_separators(x, '.', y + seq!['.'] + z);
    texts::pieces_stand_between_separators(y, '.', z);
    texts::pieces_stand_between_separators(z, '.', z);
    assert(seq![x] + (seq![y] + seq![z]) =~= seq![x, y, z]);
}

/// A version is newer where its first number that differs is greater.
pub proof fn versions_are_told_by_their_numbers(a: nat, b: nat, c: nat, d: nat, e: nat, f: nat)
    requires
        a <= u64::MAX && b <= u64::MAX && c <= u64::MAX,
        d <= u64::MAX && e <= u64::MAX && f <= u64::MAX,
    ensures
        cli::newer(version(a, b, c), version(d, e, f)) <==> a > d || (a == d && b > e) || (a == d
            && b == e && c > f),
{
    version_parts(a, b, c);
    version_parts(d, e, f);
    reveal_with_fuel(cli::newer_from, 5);
}

/// An update is published for these machines.
pub proof fn updates_are_published_for_some_machines()
    ensures
        cli::target_of("macos"@, "aarch64"@) == Some("aarch64-apple-darwin"@),
        cli::target_of("macos"@, "x86_64"@) == Some("x86_64-apple-darwin"@),
        cli::target_of("linux"@, "x86_64"@) == Some("x86_64-unknown-linux-gnu"@),
        cli::target_of("windows"@, "x86_64"@) == Some("x86_64-pc-windows-msvc"@),
        cli::target_of("linux"@, "aarch64"@) is None,
{
    reveal_strlit("macos");
    reveal_strlit("linux");
    reveal_strlit("windows");
    reveal_strlit("aarch64");
    reveal_strlit("x86_64");
    assert("macos"@.len() == 5 && "macos"@[0] == 'm');
    assert("linux"@.len() == 5 && "linux"@[0] == 'l');
    assert("windows"@.len() == 7);
    assert("aarch64"@.len() == 7 && "x86_64"@.len() == 6);
}

/// The events of a run are told one by one.
pub proof fn events_are_told(w: Seq<char>, i: pulse::ItemView, c: Seq<char>, n: i64)
    ensures
        cli::event_text(pulse::EventView::Connected, c) == "connected"@,
        cli::event_text(pulse::EventView::Disconnected(w), c) == "disconnected: "@ + w,
        cli::event_text(pulse::EventView::RunStarted, c) == "run started"@,
        cli::event_text(pulse::EventView::RunFinished(w), c) == "run finished: "@ + w,
        cli::event_text(pulse::EventView::Notice(w), c) == "notice: "@ + w,
        cli::event_text(pulse::EventView::Error(w), c) == "error: "@ + w,
        cli::event_text(pulse::EventView::Credits { tokens: n, final_run: true }, c) == "credits "@
            + c + " tokens "@ + digits::dec_int(n as int) + " final="@ + "true"@,
        i.tool_name is None && i.text is None && i.detail is None && !i.local ==> cli::event_text(
            pulse::EventView::Stream(i),
            c,
        ) == "event["@ + i.kind + "]"@,
{
    let e = Seq::<char>::empty();
    let s = "event["@ + i.kind + "]"@;
    assert(s + e + e + e + e =~= s);
}

/// Signing in keeps what was typed without its blanks, the address without slashes
/// at its end, and leaves the rest of the profile as it was.
pub proof fn signing_in_keeps_what_was_typed(
    p: ProfileView,
    base: Seq<char>,
    org: Seq<char>,
    key: Seq<char>,
    d: Seq<char>,
)
    requires
        texts::is_plain(base) && texts::is_plain(org) && texts::is_plain(key) && texts::is_plain(d),
    ensures
        ({
            let r = cli::signed_in(p, base + seq!['/'], org + seq![' '], key, d);
            &&& r.base_url == base
            &&& r.org_id == org
            &&& r.master_key == key
            &&& r.deployment == d
            &&& r.workspace_id == p.workspace_id && r.thread_id == p.thread_id
        }),
{
    crate::laws::packages::plain_is_trimmed(base);
    crate::laws::packages::plain_is_trimmed(org);
    crate::laws::packages::plain_is_trimmed(key);
    crate::laws::packages::plain_is_trimmed(d);
    texts::trimmed_texts_stay(key);
    texts::trimmed_texts_stay(d);
    let b = base + seq!['/'];
    texts::trimmed_texts_stay(b);
    assert(b.drop_last() =~= base);
    assert(base.last() == base[base.len() - 1]);
    reveal_with_fuel(pieces::trim_end_char, 2);
    let e = Seq::<char>::empty();
    texts::trimming_takes_white_ends(e, org, seq![' ']);
    assert(e + org + seq![' '] =~= org + seq![' ']);
}

// ---- models and requests -----------------------------------------------------------------------------

/// A model is called by the name that the table gives its number, by its number
/// where the table has none, and by `Default` where none is chosen.
pub proof fn models_are_called_by_their_name(t: Seq<(i64, Seq<char>)>, k: int, n: i64)
    requires
        n != 0,
    ensures
        api::model_text(t, None) == "Default"@,
        api::model_text(t, Some(0i64)) == "Default"@,
        0 <= k < t.len() && t[k].0 == n && (forall|j: int| 0 <= j < k ==> (#[trigger] t[j]).0 != n)
            ==> api::model_text(t, Some(n)) == t[k].1,
        (forall|j: int| 0 <= j < t.len() ==> (#[trigger] t[j]).0 != n) ==> api::model_text(
            t,
            Some(n),
        ) == "model:"@ + digits::dec_int(n as int),
{
    if 0 <= k < t.len() && t[k].0 == n && (forall|j: int| 0 <= j < k ==> (#[trigger] t[j]).0 != n) {
        model_found(t, k, n);
    }
    if forall|j: int| 0 <= j < t.len() ==> (#[trigger] t[j]).0 != n {
        model_missing(t, n);
    }
}

proof fn model_found(t: Seq<(i64, Seq<char>)>, k: int, n: i64)
    requires
        0 <= k < t.len(),
        t[k].0 == n,
        forall|j: int| 0 <= j < k ==> (#[trigger] t[j]).0 != n,
    ensures
        api::model_in(t, n) == Some(t[k].1),
    decreases t.len(),
{
    if k > 0 {
        let u = t.skip(1);
        assert(u[k - 1] == t[k]);
        assert forall|j: int| 0 <= j < k - 1 implies (#[trigger] u[j]).0 != n by {
            assert(u[j] == t[j + 1]);
        }
        assert(t[0].0 != n);
        model_found(u, k - 1, n);
    }
}

proof fn model_missing(t: Seq<(i64, Seq<char>)>, n: i64)
    requires
        forall|j: int| 0 <= j < t.len() ==> (#[trigger] t[j]).0 != n,
    ensures
        api::model_in(t, n) is None,
    decreases t.len(),
{
    if t.len() > 0 {
        let u = t.skip(1);
        assert forall|j: int| 0 <= j < u.len() implies (#[trigger] u[j]).0 != n by {
            assert(u[j] == t[j + 1]);
        }
        assert(t[0].0 != n);
        model_missing(u, n);
    }
}

/// The lines of a table of models, a number and a name each, are read in their
/// order; other lines are passed over.
pub proof fn tables_of_models_are_read(lines: Seq<Seq<char>>, n: nat, name: Seq<char>)
    requires
        n <= i64::MAX,
        texts::is_plain(name),
    ensures
        api::models_read(lines.push(digits::dec(n) + seq![' '] + name)) == api::models_read(
            lines,
        ).push((n as i64, name)),
        api::models_read(lines.push(name)) == api::models_read(lines),
        api::models_read(Seq::empty()).len() == 0,
{
    let d = digits::dec(n);
    let l = d + seq![' '] + name;
    digits::dec_reads_back(n);
    assert(lines.push(l).drop_last() =~= lines);
    assert(lines.push(name).drop_last() =~= lines);
    assert(text::is_digit(d[0]));
    crate::laws::packages::plain_is_trimmed(name);
    assert(l[0] == d[0] && l.last() == name.last());
    texts::trimmed_texts_stay(l);
    texts::trimmed_texts_stay(name);
    assert(lacks(d, ' '));
    texts::pieces_stand_between_separators(d, ' ', name);
    texts::plain_lacks(name, ' ');
    texts::pieces_stand_between_separators(name, ' ', name);
    assert(l.take(d.len() as int) =~= d);
    assert(l.skip(d.len() as int + 1) =~= name);
}

/// Requests go to the organisation's part of the service.
pub proof fn requests_go_to_the_organisation(prefix: Seq<char>, org: Seq<char>, rest: Seq<char>)
    ensures
        api::org_path_text(prefix, org, rest) == prefix + "/organizations/"@ + org + rest,
        api::threads_text(None) == "/cli/threads/"@,
        api::threads_text(Some(org)) == "/cli/threads/"@ + "?workspace_id="@ + org,
        api::workspace_text(org, rest) == "/cli/workspaces/"@ + org + rest,
        api::credits_text(None, None) == "/cli/credits/"@,
        api::credits_text(Some(org), None) == "/cli/credits/?"@ + "workspace_id="@ + org,
        api::credits_text(None, Some(rest)) == "/cli/credits/?"@ + "thread_id="@ + rest,
        api::credits_text(Some(org), Some(rest)) == "/cli/credits/?"@ + "workspace_id="@ + org
            + "&thread_id="@ + rest,
{
}

/// A thread is asked for by its title, and by its workspace where there is one; a
/// reply says success only by saying so.
pub proof fn threads_are_asked_for_by_title(t: Seq<char>, w: Seq<char>, reply: JsonView)
    ensures
        says(requests::thread_request(t, None), "title"@, t),
        says(requests::thread_request(t, Some(w)), "title"@, t),
        says(requests::thread_request(t, Some(w)), "workspace_id"@, w),
        requests::thread_request(t, None) matches JsonView::Obj(e) && e.len() == 1,
        requests::says_success(reply) <==> crate::json::field(reply, "success"@) == Some(
            JsonView::Bool(true),
        ),
{
    match requests::thread_request(t, None) {
        JsonView::Obj(e) => {
            assert(e[0] == ("title"@, JsonView::Str(t)));
        },
        _ => {},
    }
    match requests::thread_request(t, Some(w)) {
        JsonView::Obj(e) => {
            assert(e[0] == ("title"@, JsonView::Str(t)));
            assert(e[1] == ("workspace_id"@, JsonView::Str(w)));
        },
        _ => {},
    }
}

/// Values are written for a query: words as they are, texts in quotes, lists in
/// square brackets and objects in braces, with their keys.
pub proof fn values_are_written_for_a_query(n: Seq<char>, a: JsonView, b: JsonView, k: Seq<char>)
    ensures
        api::gql_input(JsonView::Null) == "null"@,
        api::gql_input(JsonView::Bool(true)) == "true"@,
        api::gql_input(JsonView::Bool(false)) == "false"@,
        api::gql_input(JsonView::Num(n)) == n,
        api::gql_input(JsonView::Arr(seq![a, b])) == "["@ + (api::gql_input(a) + ", "@
            + api::gql_input(b)) + "]"@,
        api::gql_input(JsonView::Obj(seq![(k, a)])) == "{ "@ + (k + ": "@ + api::gql_input(a))
            + " }"@,
        api::gql_input(JsonView::Obj(Seq::empty())) == "{}"@,
{
    reveal_with_fuel(api::gql_items, 3);
    reveal_with_fuel(api::gql_fields, 3);
    reveal_with_fuel(pieces::join, 3);
    let v = seq![a, b];
    assert(v.drop_last() =~= seq![a]);
    assert(seq![a].drop_last() =~= Seq::<JsonView>::empty());
    let g = api::gql_items(v);
    assert(g.drop_last() =~= seq![api::gql_input(a)]);
    let f = seq![(k, a)];
    assert(f.drop_last() =~= Seq::<(Seq<char>, JsonView)>::empty());
    assert(api::gql_fields(f) =~= seq![k + ": "@ + api::gql_input(a)]);
}

/// A template is found by its short name.
pub proof fn templates_are_found_by_name(v: Seq<WorkflowTemplate>, slug: Seq<char>, k: int, from: int)
    requires
        0 <= from <= k < v.len(),
        v[k].slug@ == slug,
        forall|j: int| 0 <= j < k ==> (#[trigger] v[j]).slug@ != slug,
    ensures
        remote::template_at(v, slug, from) == Some(v[k]),
    decreases k - from,
{
    if from < k {
        templates_are_found_by_name(v, slug, k, from + 1);
    }
}

/// A time is shown with a blank between day and hour.
pub proof fn times_are_shown_with_a_blank(a: Seq<char>, b: Seq<char>)
    requires
        lacks(a, 'T'),
    ensures
        remote::first_t_blank(a + seq!['T'] + b) == a + seq![' '] + b,
{
    reveal_strlit(" ");
    assert(" "@ =~= seq![' ']);
    texts::pieces_stand_between_separators(a, 'T', b);
    let t = a + seq!['T'] + b;
    assert(t.take(a.len() as int) =~= a);
    assert(t.skip(a.len() as int + 1) =~= b);
}

/// A tenant is listed with its organisation and its address, behind a star where
/// it is the default.
pub proof fn tenants_are_listed(n: Seq<char>, p: ProfileView, other: Seq<char>)
    requires
        n != other,
    ensures
        listing::tenant_text(n, p, n) == "★"@ + " "@ + n + "\t"@ + p.org_id + "\t"@ + p.base_url,
        listing::tenant_text(n, p, other) == " "@ + " "@ + n + "\t"@ + p.org_id + "\t"@
            + p.base_url,
{
}

/// A tool that ran on this machine is logged with its time, exit code and error,
/// and a question with its id, title and number of fields.
pub proof fn tools_and_questions_are_logged(
    name: Seq<char>,
    ms: nat,
    exit: Option<i32>,
    e: Seq<char>,
    id: Seq<char>,
    title: Seq<char>,
    n: nat,
)
    ensures
        ({
            let x = cli::tool_line_text(name, ms, exit, Some(e));
            &&& text::contains(x, name)
            &&& text::contains(x, digits::dec(ms))
            &&& text::contains(x, cli::exit_debug(exit))
            &&& text::contains(x, "Some("@ + e + ")"@)
        }),
        exit matches Some(k) ==> text::contains(cli::exit_debug(exit), digits::dec_int(k as int)),
        ({
            let x = cli::interrupt_line_text(id, title, n);
            &&& text::contains(x, id)
            &&& text::contains(x, title)
            &&& text::contains(x, digits::dec(n))
        }),
{
    let code = cli::exit_debug(exit);
    let why = "Some("@ + e + ")"@;
    let t0 = "local tool "@;
    let t1 = t0 + name;
    let t2 = t1 + " done "@;
    let t3 = t2 + digits::dec(ms);
    let t4 = t3 + "ms exit="@;
    let t5 = t4 + code;
    let t6 = t5 + " err="@;
    let t7 = t6 + why;
    assert(text::contains(t7, name)) by {
        texts::texts_hold_themselves(name);
        texts::longer_texts_hold_it(t0, name, name);
        texts::longer_texts_hold_it(t1, " done "@, name);
        texts::longer_texts_hold_it(t2, digits::dec(ms), name);
        texts::longer_texts_hold_it(t3, "ms exit="@, name);
        texts::longer_texts_hold_it(t4, code, name);
        texts::longer_texts_hold_it(t5, " err="@, name);
        texts::longer_texts_hold_it(t6, why, name);
    }
    assert(text::contains(t7, digits::dec(ms))) by {
        texts::texts_hold_themselves(digits::dec(ms));
        texts::longer_texts_hold_it(t2, digits::dec(ms), digits::dec(ms));
        texts::longer_texts_hold_it(t3, "ms exit="@, digits::dec(ms));
        texts::longer_texts_hold_it(t4, code, digits::dec(ms));
        texts::longer_texts_hold_it(t5, " err="@, digits::dec(ms));
        texts::longer_texts_hold_it(t6, why, digits::dec(ms));
    }
    assert(text::contains(t7, code)) by {
        texts::texts_hold_themselves(code);
        texts::longer_texts_hold_it(t4, code, code);
        texts::longer_texts_hold_it(t5, " err="@, code);
        texts::longer_texts_hold_it(t6, why, code);
    }
    assert(text::contains(t7, why)) by {
        texts::texts_hold_themselves(why);
        texts::longer_texts_hold_it(t6, why, why);
    }
    let u0 = "interrupt requested id="@;
    let u1 = u0 + id;
    let u2 = u1 + " title="@;
    let u3 = u2 + title;
    let u4 = u3 + " fields="@;
    let u5 = u4 + digits::dec(n);
    assert(text::contains(u5, id)) by {
        texts::texts_hold_themselves(id);
        texts::longer_texts_hold_it(u0, id, id);
        texts::longer_texts_hold_it(u1, " title="@, id);
        texts::longer_texts_hold_it(u2, title, id);
        texts::longer_texts_hold_it(u3, " fields="@, id);
        texts::longer_texts_hold_it(u4, digits::dec(n), id);
    }
    assert(text::contains(u5, title)) by {
        texts::texts_hold_themselves(title);
        texts::longer_texts_hold_it(u2, title, title);
        texts::longer_texts_hold_it(u3, " fields="@, title);
        texts::longer_texts_hold_it(u4, digits::dec(n), title);
    }
    assert(text::contains(u5, digits::dec(n))) by {
        texts::texts_hold_themselves(digits::dec(n));
        texts::longer_texts_hold_it(u4, digits::dec(n), digits::dec(n));
    }
    if exit is Some {
        texts::wholes_hold_their_parts("Some("@, digits::dec_int(exit->0 as int), ")"@);
    }
}

/// Of two versions the longer one's further parts count.
pub proof fn further_parts_of_a_version_count(a: Seq<char>, b: Seq<char>)
    ensures
        cli::part_count(a, b) >= pieces::split_char(a, '.').len(),
        cli::part_count(a, b) >= pieces::split_char(b, '.').len(),
        cli::part_count(a, b) == pieces::split_char(a, '.').len() || cli::part_count(a, b)
            == pieces::split_char(b, '.').len(),
{
}

/// An address that is set for another host is not this one's; without a host the
/// whole text is the address.
pub proof fn addresses_of_other_hosts_are_left(host: Seq<char>, other: Seq<char>, raw: Seq<char>)
    requires
        lacks(raw, ':'),
        host.len() > 0,
        other.len() > 0,
        other.len() != host.len(),
    ensures
        config::setting_for(other + seq![':'] + raw, host) == config::Setting::Elsewhere,
        config::setting_for(seq![':'] + raw, host) == config::Setting::Address(seq![':'] + raw),
        config::setting_for(raw, host) == config::Setting::Address(raw),
        config::setting_for(host + seq![':'] + raw, host) == config::Setting::Address(raw),
{
    no_mark(raw);
    last_mark(other, raw);
    last_mark(host, raw);
    let e = Seq::<char>::empty();
    last_mark(e, raw);
    assert(e + seq![':'] + raw =~= seq![':'] + raw);
    let t = other + seq![':'] + raw;
    assert(t.take(other.len() as int) =~= other);
    let h = host + seq![':'] + raw;
    assert(h.take(host.len() as int) =~= host);
    assert(h.skip(host.len() as int + 1) =~= raw);
    assert((seq![':'] + raw).take(0).len() == 0);
}

} // verus!
