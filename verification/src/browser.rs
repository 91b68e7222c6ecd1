//! The user's browser as a tool of the agent: which commands it takes, what is
//! kept of the traffic, and which of its instances a call gets.

use vstd::prelude::*;
use crate::codec;
use crate::digits;
use crate::editor;
use crate::json;
use crate::json::Json;
use crate::text;

verus! {

broadcast use {
    vstd::seq::group_seq_axioms,
    vstd::string::group_string_axioms,
    text::views_push,
    text::views_empty,
    json::fields_push,
    json::fields_empty,
    json::values_push,
    json::values_empty,
};

// ---- traffic --------------------------------------------------------------------------------------

/// No more bytes of a body are kept.
pub const BODY_MAX: usize = 32768;

/// A request, and what came back.
pub struct NetEntry {
    pub request_id: String,
    pub method: String,
    pub url: String,
    pub headers: Json,
    pub kind: Json,
    pub status: Option<i64>,
    pub response_headers: Option<Json>,
    pub mime: Option<String>,
    pub body: String,
    pub truncated: bool,
}

pub struct NetView {
    pub request_id: Seq<char>,
    pub method: Seq<char>,
    pub url: Seq<char>,
    pub headers: json::JsonView,
    pub kind: json::JsonView,
    pub status: Option<i64>,
    pub response_headers: Option<json::JsonView>,
    pub mime: Option<Seq<char>>,
    pub body: Seq<char>,
    pub truncated: bool,
}

impl View for NetEntry {
    type V = NetView;

    open spec fn view(&self) -> NetView {
        NetView {
            request_id: self.request_id@,
            method: self.method@,
            url: self.url@,
            headers: self.headers@,
            kind: self.kind@,
            status: self.status,
            response_headers: match self.response_headers {
                Some(j) => Some(j@),
                None => None,
            },
            mime: text::opt_view(self.mime),
            body: self.body@,
            truncated: self.truncated,
        }
    }
}

pub open spec fn entries(v: Seq<NetEntry>) -> Seq<NetView> {
    v.map_values(|e: NetEntry| e@)
}

/// A URL that ends like a file that pages are made of.
pub open spec fn is_page_part(url: Seq<char>) -> bool {
    text::ends_with(url, ".js"@) || text::ends_with(url, ".css"@) || text::ends_with(url, ".png"@)
        || text::ends_with(url, ".jpg"@) || text::ends_with(url, ".jpeg"@) || text::ends_with(
        url,
        ".gif"@,
    ) || text::ends_with(url, ".svg"@) || text::ends_with(url, ".ico"@) || text::ends_with(
        url,
        ".woff"@,
    ) || text::ends_with(url, ".woff2"@) || text::ends_with(url, ".ttf"@) || text::ends_with(
        url,
        ".eot"@,
    ) || text::ends_with(url, ".map"@)
}

/// A request that is not kept.
pub open spec fn is_skipped(url: Seq<char>) -> bool {
    is_page_part(url) || text::starts_with(url, "data:"@) || text::starts_with(url, "blob:"@)
        || text::starts_with(url, "chrome:"@)
}

/// A request that is not kept.
pub fn skips_url(url: &str) -> (r: bool)
    ensures
        r == is_skipped(url@),
{
    text::str_ends_with(url, ".js") || text::str_ends_with(url, ".css") || text::str_ends_with(
        url,
        ".png",
    ) || text::str_ends_with(url, ".jpg") || text::str_ends_with(url, ".jpeg")
        || text::str_ends_with(url, ".gif") || text::str_ends_with(url, ".svg")
        || text::str_ends_with(url, ".ico") || text::str_ends_with(url, ".woff")
        || text::str_ends_with(url, ".woff2") || text::str_ends_with(url, ".ttf")
        || text::str_ends_with(url, ".eot") || text::str_ends_with(url, ".map")
        || text::str_starts_with(url, "data:") || text::str_starts_with(url, "blob:")
        || text::str_starts_with(url, "chrome:")
}

/// The kind of a body that is kept.
pub open spec fn keeps_body(mime: Seq<char>) -> bool {
    let m = text::lowercase(mime);
    text::starts_with(m, "application/json"@) || text::starts_with(m, "application/xml"@)
        || text::starts_with(m, "application/x-www-form-urlencoded"@) || text::starts_with(
        m,
        "text/"@,
    )
}

/// The kind of a body that is kept.
pub fn body_is_kept(mime: &str) -> (r: bool)
    ensures
        r == keeps_body(mime@),
{
    let m = text::to_lowercase(mime);
    text::str_starts_with(&m, "application/json") || text::str_starts_with(&m, "application/xml")
        || text::str_starts_with(&m, "application/x-www-form-urlencoded")
        || text::str_starts_with(&m, "text/")
}

/// The first entry from `i` on that a response belongs to: the one of its
/// request, or one of its URL that has no response yet.
pub open spec fn answered_at(v: Seq<NetView>, id: Seq<char>, url: Seq<char>, i: int) -> Option<int>
    decreases v.len() - i,
{
    if i < 0 || i >= v.len() {
        None
    } else if v[i].request_id == id || (v[i].url == url && v[i].status is None) {
        Some(i)
    } else {
        answered_at(v, id, url, i + 1)
    }
}

/// The first entry from `i` on of a request.
pub open spec fn request_at(v: Seq<NetView>, id: Seq<char>, i: int) -> Option<int>
    decreases v.len() - i,
{
    if i < 0 || i >= v.len() {
        None
    } else if v[i].request_id == id {
        Some(i)
    } else {
        request_at(v, id, i + 1)
    }
}

/// The traffic of a call.
pub struct Capture {
    pub entries: Vec<NetEntry>,
}

impl View for Capture {
    type V = Seq<NetView>;

    open spec fn view(&self) -> Seq<NetView> {
        entries(self.entries@)
    }
}

/// A request that was just sent.
pub open spec fn requested(
    id: Seq<char>,
    method: Seq<char>,
    url: Seq<char>,
    headers: json::JsonView,
    kind: json::JsonView,
) -> NetView {
    NetView {
        request_id: id,
        method,
        url,
        headers,
        kind,
        status: None,
        response_headers: None,
        mime: None,
        body: Seq::empty(),
        truncated: false,
    }
}

impl Capture {
    /// No traffic.
    pub fn new() -> (r: Capture)
        ensures
            r@ == Seq::<NetView>::empty(),
    {
        let r = Capture { entries: Vec::new() };
        assert(r@ =~= Seq::<NetView>::empty());
        r
    }

    /// Keeps a request, unless it is one of those that are not kept.
    pub fn on_request(
        &mut self,
        id: String,
        method: String,
        url: String,
        headers: Json,
        kind: Json,
    )
        ensures
            final(self)@ == if is_skipped(url@) {
                old(self)@
            } else {
                old(self)@.push(requested(id@, method@, url@, headers@, kind@))
            },
    {
        if skips_url(&url) {
            return;
        }
        let body = "".to_owned();
        proof {
            reveal_strlit("");
            assert(body@ =~= Seq::<char>::empty());
        }
        let ghost before = self.entries@;
        let e = NetEntry {
            request_id: id,
            method,
            url,
            headers,
            kind,
            status: None,
            response_headers: None,
            mime: None,
            body,
            truncated: false,
        };
        let ghost shown = e@;
        self.entries.push(e);
        assert(entries(self.entries@) =~= entries(before).push(shown));
    }

    /// Keeps a response with the request that it belongs to.
    pub fn on_response(&mut self, id: &str, url: &str, status: i64, headers: Json, mime: String)
        ensures
            final(self)@ == match answered_at(old(self)@, id@, url@, 0) {
                Some(i) => old(self)@.update(
                    i,
                    NetView {
                        status: Some(status),
                        response_headers: Some(headers@),
                        mime: Some(mime@),
                        ..old(self)@[i]
                    },
                ),
                None => old(self)@,
            },
    {
        let ghost start = self@;
        let n: usize = self.entries.len();
        let mut i: usize = 0;
        while i < n
            invariant
                i <= n,
                n == self.entries@.len(),
                self@ == start,
                start == old(self)@,
                answered_at(start, id@, url@, 0) == answered_at(start, id@, url@, i as int),
            decreases n - i,
        {
            let e = &self.entries[i];
            assert(start[i as int] == e@);
            if text::str_eq(&e.request_id, id) || (text::str_eq(&e.url, url)
                && e.status.is_none()) {
                let ghost before = self.entries@;
                let mut taken = self.entries.remove(i);
                taken.status = Some(status);
                taken.response_headers = Some(headers);
                taken.mime = Some(mime);
                let ghost shown = taken@;
                self.entries.insert(i, taken);
                assert(entries(self.entries@) =~= start.update(i as int, shown));
                return;
            }
            i += 1;
        }
    }

    /// The body of a finished request is to be fetched.
    pub fn wants_body(&self, id: &str) -> (r: bool)
        ensures
            r == match request_at(self@, id@, 0) {
                Some(i) => match self@[i].mime {
                    Some(m) => keeps_body(m),
                    None => false,
                },
                None => false,
            },
    {
        let n: usize = self.entries.len();
        let mut i: usize = 0;
        while i < n
            invariant
                i <= n,
                n == self.entries@.len(),
                request_at(self@, id@, 0) == request_at(self@, id@, i as int),
            decreases n - i,
        {
            assert(self@[i as int] == self.entries@[i as int]@);
            if text::str_eq(&self.entries[i].request_id, id) {
                return match &self.entries[i].mime {
                    Some(m) => body_is_kept(m),
                    None => false,
                };
            }
            i += 1;
        }
        false
    }

    /// Keeps the body of a request, cut where it is long. The cut has to be
    /// between two characters.
    pub fn on_body(&mut self, id: &str, body: &str)
        requires
            editor::can_cut(body@, BODY_MAX as nat),
        ensures
            final(self)@ == match request_at(old(self)@, id@, 0) {
                Some(i) => old(self)@.update(
                    i,
                    NetView {
                        body: editor::cut(body@, BODY_MAX as nat),
                        truncated: text::byte_len(body@) > BODY_MAX,
                        ..old(self)@[i]
                    },
                ),
                None => old(self)@,
            },
    {
        let ghost start = self@;
        let n: usize = self.entries.len();
        let mut i: usize = 0;
        while i < n
            invariant
                i <= n,
                n == self.entries@.len(),
                self@ == start,
                start == old(self)@,
                editor::can_cut(body@, BODY_MAX as nat),
                request_at(start, id@, 0) == request_at(start, id@, i as int),
            decreases n - i,
        {
            assert(start[i as int] == self.entries@[i as int]@);
            if text::str_eq(&self.entries[i].request_id, id) {
                let long = text::str_byte_len(body) > BODY_MAX;
                let kept = editor::str_cut(body, BODY_MAX);
                let mut taken = self.entries.remove(i);
                taken.body = kept;
                taken.truncated = long;
                let ghost shown = taken@;
                self.entries.insert(i, taken);
                assert(entries(self.entries@) =~= start.update(i as int, shown));
                return;
            }
            i += 1;
        }
    }
}

/// A body as text: what is sent in base64 is decoded, where it is text.
pub open spec fn body_text(raw: Seq<char>, decoded: Option<Seq<u8>>, encoded: bool) -> Seq<char> {
    if encoded {
        text::text_or(codec::base64_utf8(decoded), raw)
    } else {
        raw
    }
}

/// A body that was sent in base64, as text: its bytes where they are text, or
/// else what was sent.
pub fn decoded_body(raw: String, bytes: Option<Vec<u8>>) -> (r: String)
    ensures
        r@ == body_text(
            raw@,
            match bytes {
                Some(b) => Some(b@),
                None => None,
            },
            true,
        ),
{
    match bytes {
        Some(b) => match codec::from_utf8(b) {
            Some(s) => s,
            None => raw,
        },
        None => raw,
    }
}

/// A body as text: what is sent in base64 is decoded, where it is text.
pub fn decode_body(raw: String, encoded: bool) -> (r: String)
    ensures
        r@ == body_text(raw@, codec::base64_bytes(raw@), encoded),
{
    if encoded {
        let bytes = codec::base64_decode(&raw);
        decoded_body(raw, bytes)
    } else {
        raw
    }
}

/// An entry as it is reported.
pub open spec fn entry_value(e: NetView) -> json::JsonView {
    let o = json::no_entries().push(("requestId"@, json::JsonView::Str(e.request_id))).push(
        ("method"@, json::JsonView::Str(e.method)),
    ).push(("url"@, json::JsonView::Str(e.url))).push(("headers"@, e.headers)).push(
        ("type"@, e.kind),
    ).push(("body"@, json::JsonView::Str(e.body))).push(
        ("bodyTruncated"@, json::JsonView::Bool(e.truncated)),
    );
    let a = match e.status {
        Some(s) => o.push(("status"@, int_value(s))),
        None => o,
    };
    let b = match e.response_headers {
        Some(h) => a.push(("responseHeaders"@, h)),
        None => a,
    };
    json::JsonView::Obj(
        match e.mime {
            Some(m) => b.push(("mimeType"@, json::JsonView::Str(m))),
            None => b,
        },
    )
}

pub open spec fn int_value(n: i64) -> json::JsonView {
    json::JsonView::Num(digits::dec_int(n as int))
}

impl NetEntry {
    /// The entry as it is reported.
    pub fn to_json(self) -> (r: Json)
        ensures
            r@ == entry_value(self@),
    {
        let mut o = json::no_fields();
        json::put_text(&mut o, "requestId", &self.request_id);
        json::put_text(&mut o, "method", &self.method);
        json::put_text(&mut o, "url", &self.url);
        json::put(&mut o, "headers", self.headers);
        json::put(&mut o, "type", self.kind);
        json::put_text(&mut o, "body", &self.body);
        json::put(&mut o, "bodyTruncated", Json::Bool(self.truncated));
        if let Some(s) = self.status {
            let t = digits::i64_to_string(s);
            json::put(&mut o, "status", Json::Num(t));
        }
        if let Some(h) = self.response_headers {
            json::put(&mut o, "responseHeaders", h);
        }
        if let Some(m) = self.mime {
            json::put_text(&mut o, "mimeType", &m);
        }
        Json::Obj(o)
    }
}

// ---- instances ----------------------------------------------------------------------------------------

/// Which instances of the browser are in use.
pub struct Pool {
    pub busy: Vec<bool>,
}

/// The first instance from `i` on that is idle.
pub open spec fn idle_from(busy: Seq<bool>, i: int) -> Option<int>
    decreases busy.len() - i,
{
    if i < 0 || i >= busy.len() {
        None
    } else if !busy[i] {
        Some(i)
    } else {
        idle_from(busy, i + 1)
    }
}

/// The instance that a call gets, and the pool after that: an idle one, or else
/// a new one.
pub open spec fn acquired(busy: Seq<bool>) -> (int, Seq<bool>) {
    match idle_from(busy, 0) {
        Some(i) => (i, busy.update(i, true)),
        None => (busy.len() as int, busy.push(true)),
    }
}

/// The pool after an instance was given back.
pub open spec fn released(busy: Seq<bool>, i: int) -> Seq<bool> {
    if 0 <= i < busy.len() {
        busy.update(i, false)
    } else {
        busy
    }
}

impl Pool {
    /// No instances.
    pub fn new() -> (r: Pool)
        ensures
            r.busy@ == Seq::<bool>::empty(),
    {
        Pool { busy: Vec::new() }
    }

    /// Takes an instance: an idle one, or else a new one.
    pub fn acquire(&mut self) -> (r: usize)
        ensures
            (r as int, final(self).busy@) == acquired(old(self).busy@),
    {
        let n: usize = self.busy.len();
        let mut i: usize = 0;
        while i < n
            invariant
                i <= n,
                n == self.busy@.len(),
                self.busy@ == old(self).busy@,
                idle_from(self.busy@, 0) == idle_from(self.busy@, i as int),
            decreases n - i,
        {
            if !self.busy[i] {
                self.busy.set(i, true);
                return i;
            }
            i += 1;
        }
        self.busy.push(true);
        n
    }

    /// Gives an instance back.
    pub fn release(&mut self, i: usize)
        ensures
            final(self).busy@ == released(old(self).busy@, i as int),
    {
        if i < self.busy.len() {
            self.busy.set(i, false);
        }
    }
}

proof fn idle_is_idle(busy: Seq<bool>, i: int)
    requires
        0 <= i,
    ensures
        idle_from(busy, i) matches Some(k) ==> i <= k < busy.len() && !busy[k] && forall|j: int|
            i <= j < k ==> busy[j],
        idle_from(busy, i) is None ==> forall|j: int| i <= j < busy.len() ==> busy[j],
    decreases busy.len() - i,
{
    if i < busy.len() && busy[i] {
        idle_is_idle(busy, i + 1);
    }
}

/// A call never gets an instance that is in use, it is the only change, and a
/// new instance is only started where all are in use.
pub proof fn calls_get_instances_of_their_own(busy: Seq<bool>)
    ensures
        ({
            let (i, after) = acquired(busy);
            &&& 0 <= i < after.len()
            &&& after[i]
            &&& i < busy.len() ==> !busy[i]
            &&& forall|j: int| 0 <= j < busy.len() && j != i ==> after[j] == busy[j]
            &&& after.len() > busy.len() ==> forall|j: int| 0 <= j < busy.len() ==> busy[j]
        }),
{
    idle_is_idle(busy, 0);
}

/// A call that comes after another one has given its instance back gets the same
/// instance.
pub proof fn instances_are_used_again(busy: Seq<bool>)
    ensures
        ({
            let (i, after) = acquired(busy);
            acquired(released(after, i)).0 == i
        }),
{
    idle_is_idle(busy, 0);
    let (i, after) = acquired(busy);
    let back = released(after, i);
    idle_is_idle(back, 0);
    assert(!back[i]);
    assert forall|j: int| 0 <= j < i implies back[j] by {
        assert(back[j] == busy[j]);
    }
}

/// The folder name of an instance's profile.
pub fn slot_name(i: usize) -> (r: String)
    ensures
        r@ == "slot-"@ + digits::dec(i as nat),
{
    let mut s = "slot-".to_owned();
    let n = digits::usize_to_string(i);
    s.push_str(&n);
    s
}

} // verus!
