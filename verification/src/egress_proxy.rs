//! The decisions of the local proxy that enforces the egress scope: reading a
//! request head, finding where it wants to go, and what to answer.

use vstd::prelude::*;
use crate::digits;
use crate::netpolicy;
use crate::netpolicy::Decision;
use crate::pieces;
use crate::text;
use crate::weburl;
use crate::weburl::UrlParts;

verus! {

broadcast use {vstd::seq::group_seq_axioms, vstd::string::group_string_axioms, text::views_push};

// ---- reading the request head --------------------------------------------------

/// What is to be done with the bytes that were read so far.
#[derive(Clone, Copy, Debug, PartialEq, Eq, Structural)]
pub enum HeadState {
    /// The blank line that ends the head is there.
    Complete,
    /// The head is longer than the proxy takes.
    TooLarge,
    /// Read on.
    NeedMore,
}

/// The most bytes that are read in search of the end of a head.
pub const MAX_HEAD: usize = 65536;

/// The bytes of a blank line stand somewhere in `b`.
pub open spec fn has_blank_line(b: Seq<u8>) -> bool {
    exists|i: int|
        0 <= i && i + 4 <= b.len() && #[trigger] b[i] == 13 && b[i + 1] == 10 && b[i + 2] == 13 && b[i + 3]
            == 10
}

/// What is to be done with the bytes read so far.
pub fn head_state(buf: &Vec<u8>) -> (r: HeadState)
    ensures
        r == (if has_blank_line(buf@) {
            HeadState::Complete
        } else if buf@.len() > MAX_HEAD {
            HeadState::TooLarge
        } else {
            HeadState::NeedMore
        }),
{
    let n: usize = buf.len();
    if n >= 4 {
        let mut i: usize = 0;
        while i <= n - 4
            invariant
                n == buf@.len(),
                4 <= n,
                i <= n - 3,
                forall|j: int|
                    0 <= j < i ==> !(#[trigger] buf@[j] == 13 && buf@[j + 1] == 10 && buf@[j + 2] == 13
                        && buf@[j + 3] == 10),
            decreases n - i,
        {
            if buf[i] == 13 && buf[i + 1] == 10 && buf[i + 2] == 13 && buf[i + 3] == 10 {
                assert(buf@[i as int] == 13);
                return HeadState::Complete;
            }
            i += 1;
        }
    }
    if n > MAX_HEAD {
        HeadState::TooLarge
    } else {
        HeadState::NeedMore
    }
}

/// The message for a client that went away or sent too much before the head
/// was complete.
pub fn head_error(too_large: bool) -> (r: String)
    ensures
        r@ == if too_large {
            "proxy request head too large"@
        } else {
            "client closed before full request head"@
        },
{
    if too_large {
        "proxy request head too large".to_owned()
    } else {
        "client closed before full request head".to_owned()
    }
}

// ---- parsing it ------------------------------------------------------------------

/// A proxy request: a `CONNECT host:port` tunnel, or a plain request whose
/// absolute URI names the upstream.
pub struct ProxyRequest {
    pub is_connect: bool,
    pub host: String,
    pub port: u16,
    /// The bytes that were read from the client.
    pub head: Vec<u8>,
    /// The head to forward, its request line rewritten to origin form; `None`
    /// for a tunnel, which forwards nothing.
    pub rewritten_head: Option<Vec<u8>>,
}

pub struct RequestView {
    pub is_connect: bool,
    pub host: Seq<char>,
    pub port: u16,
    pub head: Seq<u8>,
    pub rewritten_head: Option<Seq<u8>>,
}

impl View for ProxyRequest {
    type V = RequestView;

    open spec fn view(&self) -> RequestView {
        RequestView {
            is_connect: self.is_connect,
            host: self.host@,
            port: self.port,
            head: self.head@,
            rewritten_head: match self.rewritten_head {
                Some(b) => Some(b@),
                None => None,
            },
        }
    }
}

pub open spec fn request_view(r: Result<ProxyRequest, String>) -> Result<RequestView, Seq<char>> {
    match r {
        Ok(q) => Ok(q@),
        Err(e) => Err(e@),
    }
}

/// What `String::from_utf8_lossy` makes of bytes that are not UTF-8: their text,
/// with the replacement character in place of what is wrong.
pub uninterp spec fn mended_utf8(b: Seq<u8>) -> Seq<char>;

/// The text of bytes; what is not UTF-8 is replaced.
pub open spec fn utf8_lossy(b: Seq<u8>) -> Seq<char> {
    if vstd::utf8::valid_utf8(b) {
        vstd::utf8::decode_utf8(b)
    } else {
        mended_utf8(b)
    }
}

/// Calls `String::from_utf8_lossy`. Bytes that are UTF-8 give the text that
/// they encode; what replaces the others is only named.
#[verifier::external_body]
pub(crate) fn from_utf8_lossy(b: &[u8]) -> (r: String)
    ensures
        vstd::utf8::valid_utf8(b@) ==> r@ == vstd::utf8::decode_utf8(b@),
        !vstd::utf8::valid_utf8(b@) ==> r@ == mended_utf8(b@),
        r@ == utf8_lossy(b@),
{
    String::from_utf8_lossy(b).into_owned()
}

/// What `{:?}` prints of a text: the text between quotes, escaped.
pub uninterp spec fn debug_text(s: Seq<char>) -> Seq<char>;

/// Formats a text with `{:?}`. Which characters are escaped, and how, is only
/// named.
#[verifier::external_body]
pub(crate) fn format_debug(s: &str) -> (r: String)
    ensures
        r@ == debug_text(s@),
{
    format!("{:?}", s)
}

/// Host and port of a tunnel target: the text after the last colon is the
/// port where it is a 16-bit number; else the whole target is the host.
pub open spec fn host_port(target: Seq<char>, default_port: u16) -> (Seq<char>, u16) {
    match pieces::last_index_of(target, ':') {
        Some(k) => match digits::parse_nat(target.skip(k + 1), u16::MAX as nat) {
            Some(p) => (target.take(k), p as u16),
            None => (target, default_port),
        },
        None => (target, default_port),
    }
}

/// Host and port of a tunnel target.
pub fn split_host_port(target: &str, default_port: u16) -> (r: (String, u16))
    ensures
        (r.0@, r.1) == host_port(target@, default_port),
{
    let v = text::chars_of(target);
    match pieces::chars_last_index(&v, ':') {
        Some(k) => {
            let port_text = text::string_range(&v, k + 1, v.len());
            assert(port_text@ =~= target@.skip(k as int + 1));
            match digits::str_to_u64(&port_text, u16::MAX as u64) {
                Some(p) => {
                    let host = text::string_range(&v, 0, k);
                    assert(host@ =~= target@.take(k as int));
                    (host, p as u16)
                },
                None => (target.to_owned(), default_port),
            }
        },
        None => (target.to_owned(), default_port),
    }
}

/// The piece of a list, or an empty text where there is none.
pub open spec fn piece_or_empty(p: Seq<Seq<char>>, i: int) -> Seq<char> {
    if 0 <= i < p.len() {
        p[i]
    } else {
        Seq::empty()
    }
}

/// Path and query of a URL as they stand in a request line.
pub open spec fn origin_form(u: weburl::UrlView) -> Seq<char> {
    let s = match u.query {
        Some(q) => u.path + seq!['?'] + q,
        None => u.path,
    };
    if s.len() == 0 {
        seq!['/']
    } else {
        s
    }
}

/// A request line with the URL in origin form.
pub open spec fn request_line(line: Seq<char>, u: weburl::UrlView) -> Seq<char> {
    piece_or_empty(pieces::words(line), 0) + " "@ + origin_form(u) + " "@ + pieces::split_char(
        line,
        ' ',
    ).last()
}

/// The head that is forwarded: the request line with the URL in origin form,
/// then every other line as it came.
pub open spec fn rewritten(lines: Seq<Seq<char>>, u: weburl::UrlView) -> Seq<char> {
    pieces::join(
        seq![request_line(piece_or_empty(lines, 0), u)] + (if lines.len() > 0 {
            lines.skip(1)
        } else {
            Seq::empty()
        }),
        "\r\n"@,
    )
}

/// The request for an upstream that is named by a URL.
pub open spec fn forward_of(
    head: Seq<u8>,
    lines: Seq<Seq<char>>,
    target: Seq<char>,
    parsed: Result<weburl::UrlView, Seq<char>>,
) -> Result<RequestView, Seq<char>> {
    match parsed {
        Err(e) => Err("bad proxy target "@ + debug_text(target) + ": "@ + e),
        Ok(u) => match u.host {
            None => Err("no host in proxy target"@),
            Some(host) => Ok(
                RequestView {
                    is_connect: false,
                    host,
                    port: weburl::port_to_dial(u),
                    head,
                    rewritten_head: Some(vstd::utf8::encode_utf8(rewritten(lines, u))),
                },
            ),
        },
    }
}

/// What a request head asks for.
pub open spec fn request_of(head: Seq<u8>) -> Result<RequestView, Seq<char>> {
    let lines = pieces::split_str(utf8_lossy(head), "\r\n"@);
    let parts = pieces::words(piece_or_empty(lines, 0));
    let target = piece_or_empty(parts, 1);
    if netpolicy::eq_ignore_ascii_case(piece_or_empty(parts, 0), "CONNECT"@) {
        Ok(
            RequestView {
                is_connect: true,
                host: host_port(target, 443).0,
                port: host_port(target, 443).1,
                head,
                rewritten_head: None,
            },
        )
    } else {
        forward_of(head, lines, target, weburl::url_parts(target))
    }
}

fn piece(p: &Vec<String>, i: usize) -> (r: String)
    ensures
        r@ == piece_or_empty(text::views(p@), i as int),
{
    if i < p.len() {
        p[i].clone()
    } else {
        String::new()
    }
}

fn copy_bytes(b: &[u8]) -> (r: Vec<u8>)
    ensures
        r@ == b@,
{
    let mut out: Vec<u8> = Vec::new();
    let mut i: usize = 0;
    while i < b.len()
        invariant
            i <= b@.len(),
            out@ == b@.take(i as int),
        decreases b@.len() - i,
    {
        out.push(b[i]);
        assert(b@.take(i as int + 1) =~= b@.take(i as int).push(b@[i as int]));
        i += 1;
    }
    assert(b@.take(b@.len() as int) =~= b@);
    out
}

fn write_origin_form(u: &UrlParts) -> (r: String)
    ensures
        r@ == origin_form(u@),
{
    let mut s = u.path.clone();
    if let Some(q) = &u.query {
        s.push('?');
        assert(s@ =~= u.path@ + seq!['?']);
        s.push_str(q);
    }
    if text::char_count(&s) == 0 {
        s.push('/');
        assert(s@ =~= seq!['/']);
    }
    s
}

proof fn split_char_not_empty(s: Seq<char>, c: char)
    ensures
        pieces::split_char(s, c).len() > 0,
{
}

fn write_request_line(line: &str, u: &UrlParts) -> (r: String)
    ensures
        r@ == request_line(line@, u@),
{
    let words = pieces::str_words(line);
    let mut out = piece(&words, 0);
    let form = write_origin_form(u);
    let cols = pieces::str_split_char(line, ' ');
    proof {
        split_char_not_empty(line@, ' ');
    }
    assert(text::views(cols@).len() == cols@.len());
    let version = cols[cols.len() - 1].clone();
    assert(version@ == text::views(cols@).last());
    out.push_str(" ");
    out.push_str(&form);
    out.push_str(" ");
    out.push_str(&version);
    out
}

fn write_rewritten(lines: &Vec<String>, u: &UrlParts) -> (r: String)
    ensures
        r@ == rewritten(text::views(lines@), u@),
{
    let ghost all = text::views(lines@);
    let line = piece(lines, 0);
    let mut head: Vec<String> = Vec::new();
    head.push(write_request_line(&line, u));
    let ghost first = seq![request_line(piece_or_empty(all, 0), u@)];
    assert(text::views(head@) =~= first);
    let mut i: usize = 1;
    while i < lines.len()
        invariant
            1 <= i,
            lines@.len() > 0 ==> i <= lines@.len(),
            all == text::views(lines@),
            lines@.len() > 0 ==> text::views(head@) == first + all.take(i as int).skip(1),
            lines@.len() == 0 ==> text::views(head@) == first,
        decreases lines@.len() - i,
    {
        assert(all[i as int] == lines@[i as int]@);
        head.push(lines[i].clone());
        assert(text::views(head@) =~= first + all.take(i as int + 1).skip(1));
        i += 1;
    }
    proof {
        if lines@.len() > 0 {
            assert(all.take(all.len() as int) =~= all);
        } else {
            assert(first + Seq::<Seq<char>>::empty() =~= first);
        }
    }
    pieces::str_join(&head, "\r\n")
}

/// The request for an upstream named by `target`, which was parsed as `parsed`.
pub fn forward_request(
    head: &[u8],
    lines: &Vec<String>,
    target: &str,
    parsed: Result<UrlParts, String>,
) -> (r: Result<ProxyRequest, String>)
    ensures
        request_view(r) == forward_of(head@, text::views(lines@), target@, weburl::result_view(parsed)),
{
    match parsed {
        Err(e) => {
            let mut m = "bad proxy target ".to_owned();
            let shown = format_debug(target);
            m.push_str(&shown);
            m.push_str(": ");
            m.push_str(&e);
            Err(m)
        },
        Ok(u) => {
            let port: u16 = weburl::url_port(&u);
            match &u.host {
                None => Err("no host in proxy target".to_owned()),
                Some(h) => {
                    let body = write_rewritten(lines, &u);
                    Ok(
                        ProxyRequest {
                            is_connect: false,
                            host: h.clone(),
                            port,
                            head: copy_bytes(head),
                            rewritten_head: Some(body.as_str().as_bytes_vec()),
                        },
                    )
                },
            }
        },
    }
}

/// What a request head asks for.
pub fn parse_request(head: &[u8]) -> (r: Result<ProxyRequest, String>)
    ensures
        request_view(r) == request_of(head@),
{
    let whole = from_utf8_lossy(head);
    proof {
        reveal_strlit("\r\n");
    }
    let lines = pieces::str_split_str(&whole, "\r\n");
    let line = piece(&lines, 0);
    let parts = pieces::str_words(&line);
    let method = piece(&parts, 0);
    let target = piece(&parts, 1);
    if netpolicy::str_eq_ignore_ascii_case(&method, "CONNECT") {
        let (host, port) = split_host_port(&target, 443);
        return Ok(
            ProxyRequest { is_connect: true, host, port, head: copy_bytes(head), rewritten_head: None },
        );
    }
    let parsed = weburl::parse_url(&target);
    forward_request(head, &lines, &target, parsed)
}

// ---- answering ---------------------------------------------------------------------

/// What the proxy does with a request once the scope has decided on it.
pub enum Reply {
    /// Write these bytes to the client and close: nothing is connected.
    Refuse(Vec<u8>),
    /// Connect, write these bytes to the client, then relay both ways.
    Tunnel(Vec<u8>),
    /// Connect, write these bytes upstream, then relay both ways.
    Forward(Vec<u8>),
    /// Connect and relay both ways.
    Relay,
}

pub enum ReplyView {
    Refuse(Seq<u8>),
    Tunnel(Seq<u8>),
    Forward(Seq<u8>),
    Relay,
}

impl View for Reply {
    type V = ReplyView;

    open spec fn view(&self) -> ReplyView {
        match self {
            Reply::Refuse(b) => ReplyView::Refuse(b@),
            Reply::Tunnel(b) => ReplyView::Tunnel(b@),
            Reply::Forward(b) => ReplyView::Forward(b@),
            Reply::Relay => ReplyView::Relay,
        }
    }
}

/// The body of a refusal: it names the destination and the reason.
pub open spec fn denial_body(host: Seq<char>, port: u16, reason: Seq<char>) -> Seq<char> {
    "egress denied: "@ + host + ":"@ + digits::dec(port as nat) + " — "@ + reason
}

/// The whole response of a refusal.
pub open spec fn denial(host: Seq<char>, port: u16, reason: Seq<char>) -> Seq<char> {
    let body = denial_body(host, port, reason);
    "HTTP/1.1 403 Forbidden\r\nContent-Length: "@ + digits::dec(vstd::utf8::encode_utf8(body).len())
        + "\r\nConnection: close\r\n\r\n"@ + body
}

/// What is answered to a request on a decision.
pub open spec fn reply_to(q: RequestView, d: netpolicy::DecisionView) -> ReplyView {
    match d {
        netpolicy::DecisionView::Deny(reason) => ReplyView::Refuse(
            vstd::utf8::encode_utf8(denial(q.host, q.port, reason)),
        ),
        netpolicy::DecisionView::Allow => if q.is_connect {
            ReplyView::Tunnel(vstd::utf8::encode_utf8("HTTP/1.1 200 Connection Established\r\n\r\n"@))
        } else {
            match q.rewritten_head {
                Some(b) => ReplyView::Forward(b),
                None => ReplyView::Relay,
            }
        },
    }
}

/// What is answered to a request on a decision.
pub fn reply(q: &ProxyRequest, d: &Decision) -> (r: Reply)
    ensures
        r@ == reply_to(q@, d@),
{
    match d {
        Decision::Deny(reason) => {
            let mut body = "egress denied: ".to_owned();
            body.push_str(&q.host);
            body.push_str(":");
            let port = digits::u64_to_string(q.port as u64);
            body.push_str(&port);
            body.push_str(" — ");
            body.push_str(reason);
            let mut out = "HTTP/1.1 403 Forbidden\r\nContent-Length: ".to_owned();
            let bytes = body.as_str().as_bytes_vec();
            let n = digits::usize_to_string(bytes.len());
            out.push_str(&n);
            out.push_str("\r\nConnection: close\r\n\r\n");
            out.push_str(&body);
            Reply::Refuse(out.as_str().as_bytes_vec())
        },
        Decision::Allow => {
            if q.is_connect {
                Reply::Tunnel("HTTP/1.1 200 Connection Established\r\n\r\n".as_bytes_vec())
            } else {
                match &q.rewritten_head {
                    Some(b) => Reply::Forward(copy_bytes(b.as_slice())),
                    None => Reply::Relay,
                }
            }
        },
    }
}

/// The response to a head that is no request.
pub fn bad_request(error: &str) -> (r: Vec<u8>)
    ensures
        r@ == vstd::utf8::encode_utf8("HTTP/1.1 400 Bad Request\r\n\r\n"@ + error@),
{
    let mut out = "HTTP/1.1 400 Bad Request\r\n\r\n".to_owned();
    out.push_str(error);
    out.as_str().as_bytes_vec()
}

/// The value of the proxy variables for a proxy that listens at `addr`.
pub fn proxy_url(addr: &str) -> (r: String)
    ensures
        r@ == "http://"@ + addr@,
{
    let mut out = "http://".to_owned();
    out.push_str(addr);
    out
}

// ---- laws ----------------------------------------------------------------------------

/// A denied request is never connected: the only answer to it is the refusal
/// that names its destination.
pub proof fn denied_request_is_refused(q: RequestView, reason: Seq<char>)
    ensures
        reply_to(q, netpolicy::DecisionView::Deny(reason)) == ReplyView::Refuse(
            vstd::utf8::encode_utf8(denial(q.host, q.port, reason)),
        ),
{
}

/// Of the head that came only the first line changes: behind it the head that
/// is forwarded goes on exactly as the other does.
pub proof fn forwarded_head_differs_in_the_first_line(t: Seq<char>, u: weburl::UrlView)
    ensures
        ({
            let lines = pieces::split_str(t, "\r\n"@);
            let rest = t.skip(lines[0].len() as int);
            &&& t == lines[0] + rest
            &&& rewritten(lines, u) == request_line(lines[0], u) + rest
        }),
{
    reveal_strlit("\r\n");
    let sep = "\r\n"@;
    let lines = pieces::split_str(t, sep);
    pieces::split_pieces_join(t, sep);
    let tail = lines.skip(1);
    assert(lines =~= seq![lines[0]] + tail);
    pieces::join_first(lines[0], tail, sep);
    pieces::join_first(request_line(lines[0], u), tail, sep);
    let rest = t.skip(lines[0].len() as int);
    if tail.len() == 0 {
        assert(rest =~= Seq::<char>::empty());
        assert(t =~= lines[0] + rest);
        assert(request_line(lines[0], u) + rest =~= request_line(lines[0], u));
    } else {
        let after = sep + pieces::join(tail, sep);
        assert(t =~= lines[0] + after);
        assert(rest =~= after);
        assert(request_line(lines[0], u) + after =~= request_line(lines[0], u) + sep + pieces::join(
            tail,
            sep,
        ));
    }
}

} // verus!
