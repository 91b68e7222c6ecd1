//! Transcripts of a workspace's threads as files.

use vstd::prelude::*;
use crate::api::{HistMsg, Thread};
use crate::digits;
use crate::editor;
use crate::history;
use crate::json;
use crate::json::Json;
use crate::pieces;
use crate::text;

verus! {

broadcast use {
    vstd::seq::group_seq_axioms,
    vstd::string::group_string_axioms,
    text::views_push,
    text::views_empty,
    json::fields_push,
    json::fields_empty,
    json::values_push,
    json::values_empty,
};

// ---- names -------------------------------------------------------------------------------

/// The title of a thread; one without a title is called so.
pub open spec fn title_or(t: Seq<char>) -> Seq<char> {
    if t.len() == 0 {
        "(untitled)"@
    } else {
        t
    }
}

fn title_of(t: &Thread) -> (r: String)
    ensures
        r@ == title_or(t.title@),
{
    if text::char_count(&t.title) == 0 {
        "(untitled)".to_owned()
    } else {
        t.title.clone()
    }
}

/// How a thread is shown: its title and the beginning of its id.
pub open spec fn label_text(title: Seq<char>, id: Seq<char>) -> Seq<char> {
    title_or(title) + " ("@ + editor::cut(id, 8) + "…)"@
}

/// How a thread is shown: its title and the beginning of its id.
pub fn thread_label(t: &Thread) -> (r: String)
    requires
        editor::can_cut(t.id@, 8),
    ensures
        r@ == label_text(t.title@, t.id@),
{
    let mut s = title_of(t);
    s.push_str(" (");
    let id = editor::str_cut(&t.id, 8);
    s.push_str(&id);
    s.push_str("…)");
    s
}

/// The most characters that a slug has before it ends.
pub const SLUG_LIMIT: usize = 48;

/// A slug that is being made; `gap` says that something was left out behind it.
pub struct Slug {
    pub made: Seq<char>,
    pub gap: bool,
}

pub open spec fn slug_read(s: Seq<char>) -> Slug
    decreases s.len(),
{
    if s.len() == 0 {
        Slug { made: Seq::empty(), gap: false }
    } else {
        let b = slug_read(s.drop_last());
        let c = s.last();
        if b.made.len() >= SLUG_LIMIT {
            b
        } else if text::is_ascii_alphanumeric(c) {
            Slug {
                made: (if b.gap && b.made.len() > 0 {
                    b.made.push('-')
                } else {
                    b.made
                }).push(text::ascii_lower(c)),
                gap: false,
            }
        } else {
            Slug { gap: true, ..b }
        }
    }
}

/// A title as a part of a file name: letters and digits in lower case, with
/// single dashes between them.
pub open spec fn slug_of(s: Seq<char>) -> Seq<char> {
    let m = slug_read(s).made;
    if m.len() == 0 {
        "untitled"@
    } else {
        m
    }
}

/// A title as a part of a file name.
pub fn slugify(s: &str) -> (r: String)
    ensures
        r@ == slug_of(s@),
{
    let v = text::chars_of(s);
    let mut out: Vec<char> = Vec::new();
    let mut gap = false;
    let mut i: usize = 0;
    while i < v.len()
        invariant
            i <= v@.len(),
            v@ == s@,
            (Slug { made: out@, gap }) == slug_read(s@.take(i as int)),
        decreases v@.len() - i,
    {
        assert(s@.take(i + 1).drop_last() =~= s@.take(i as int));
        assert(s@.take(i + 1).last() == v@[i as int]);
        if out.len() < SLUG_LIMIT {
            let c = v[i];
            if text::char_is_ascii_alphanumeric(c) {
                if gap && out.len() > 0 {
                    out.push('-');
                }
                out.push(text::char_ascii_lower(c));
                gap = false;
            } else {
                gap = true;
            }
        }
        i += 1;
    }
    assert(s@.take(s@.len() as int) =~= s@);
    if out.len() == 0 {
        "untitled".to_owned()
    } else {
        text::string_of(&out)
    }
}

/// A slug holds only lower-case letters, digits and dashes, has no dash at its
/// ends nor two together, and is short.
pub open spec fn is_slug(s: Seq<char>) -> bool {
    &&& forall|i: int|
        0 <= i < s.len() ==> (text::is_ascii_alphanumeric(#[trigger] s[i]) && text::ascii_lower(s[i])
            == s[i]) || s[i] == '-'
    &&& s.len() > 0 ==> s[0] != '-' && s.last() != '-'
    &&& forall|i: int| 0 < i < s.len() && (#[trigger] s[i]) == '-' ==> s[i - 1] != '-'
    &&& s.len() <= SLUG_LIMIT + 1
}

proof fn slug_read_is_a_slug(s: Seq<char>)
    ensures
        is_slug(slug_read(s).made),
    decreases s.len(),
{
    if s.len() > 0 {
        slug_read_is_a_slug(s.drop_last());
    }
}

/// Whatever the title, its slug is a short name of letters, digits and single
/// dashes.
pub proof fn slugs_are_file_names(s: Seq<char>)
    ensures
        slug_of(s).len() > 0,
        is_slug(slug_of(s)),
{
    slug_read_is_a_slug(s);
    reveal_strlit("untitled");
}

/// The file of the thread at that position.
pub fn transcript_file(position: usize, t: &Thread, format: &str) -> (r: String)
    requires
        position < usize::MAX,
        editor::can_cut(t.id@, 8),
    ensures
        r@ == digits::dec_padded((position + 1) as nat, 3) + "-"@ + slug_of(t.title@) + "-"@
            + editor::cut(t.id@, 8) + "."@ + format@,
{
    let mut s = digits::usize_padded(position + 1, 3);
    s.push_str("-");
    let g = slugify(&t.title);
    s.push_str(&g);
    s.push_str("-");
    let id = editor::str_cut(&t.id, 8);
    s.push_str(&id);
    s.push_str(".");
    s.push_str(format);
    s
}

// ---- a transcript --------------------------------------------------------------------------

/// The heading of a transcript.
pub open spec fn header_text(
    title: Seq<char>,
    id: Seq<char>,
    workspace: Seq<char>,
    status: Seq<char>,
    created: Option<Seq<char>>,
) -> Seq<char> {
    "# "@ + title_or(title) + "\n\n"@ + "- **Thread:** `"@ + id + "`\n"@ + "- **Workspace:** `"@
        + workspace + "`\n"@ + (if status.len() == 0 {
        Seq::empty()
    } else {
        "- **Status:** "@ + status + "\n"@
    }) + (match created {
        Some(c) if c.len() > 0 => "- **Created:** "@ + c + "\n"@,
        _ => Seq::empty(),
    }) + "\n---\n\n"@
}

/// The heading of a thread's transcript.
pub open spec fn header_of(t: Thread, workspace: Seq<char>) -> Seq<char> {
    header_text(t.title@, t.id@, workspace, t.status@, text::opt_view(t.created_at))
}

/// The heading of a thread's transcript.
pub fn transcript_md_header(t: &Thread, workspace: &str) -> (r: String)
    ensures
        r@ == header_of(*t, workspace@),
{
    let mut s = "# ".to_owned();
    let title = title_of(t);
    s.push_str(&title);
    s.push_str("\n\n");
    s.push_str("- **Thread:** `");
    s.push_str(&t.id);
    s.push_str("`\n");
    s.push_str("- **Workspace:** `");
    s.push_str(workspace);
    s.push_str("`\n");
    let ghost a = s@;
    if text::char_count(&t.status) > 0 {
        let mut l = "- **Status:** ".to_owned();
        l.push_str(&t.status);
        l.push_str("\n");
        s.push_str(&l);
    } else {
        assert(a + Seq::<char>::empty() =~= a);
    }
    let ghost b = s@;
    assert(b + Seq::<char>::empty() =~= b);
    match &t.created_at {
        Some(c) => {
            if text::char_count(c) > 0 {
                let mut l = "- **Created:** ".to_owned();
                l.push_str(c);
                l.push_str("\n");
                s.push_str(&l);
            }
        },
        None => {},
    }
    s.push_str("\n---\n\n");
    s
}

/// A transcript that is being written; `in_tools` says that it ends in lines of
/// tools.
pub struct Page {
    pub md: Seq<char>,
    pub in_tools: bool,
}

/// A section with a heading.
pub open spec fn section(p: Page, head: Seq<char>, t: Seq<char>) -> Page {
    if pieces::is_blank(t) {
        p
    } else {
        Page { md: p.md + ("\n## "@ + head + "\n\n"@ + pieces::trim(t) + "\n"@), in_tools: false }
    }
}

/// An indented line; a blank line comes before the first of several.
pub open spec fn tool_line(p: Page, line: Seq<char>) -> Page {
    Page {
        md: (if p.in_tools {
            p.md
        } else {
            p.md + "\n"@
        }) + ("    "@ + line + "\n"@),
        in_tools: true,
    }
}

/// The transcript with one more event.
pub open spec fn event_written(p: Page, e: json::JsonView, messages_only: bool) -> Page {
    let etype = json::text_field(e, "type"@);
    let pay = json::field(e, "payload"@);
    if etype == "message.created"@ && json::text_field(e, "actor"@) == "user"@ {
        section(p, "👤 User"@, history::payload_text(e, "text"@))
    } else if etype == "message.segment.completed"@ {
        section(p, "🤖 "@ + history::event_agent(e), history::payload_text(e, "text"@))
    } else if messages_only {
        p
    } else if etype == "thinking.completed"@ {
        let t = history::payload_text(e, "text"@);
        if pieces::is_blank(t) {
            p
        } else {
            Page {
                md: p.md + ("\n> 💭 "@ + pieces::replace_char(pieces::trim(t), '\n', "\n> "@) + "\n"@),
                in_tools: false,
            }
        }
    } else if etype == "tool.start"@ {
        tool_line(
            p,
            "🔧 "@ + history::payload_text(e, "toolName"@) + " "@ + history::compact_value(
                json::opt_field(pay, "arguments"@),
                160,
            ),
        )
    } else if etype == "tool.output"@ {
        let res = history::compact_value(json::opt_field(pay, "result"@), 300);
        tool_line(
            p,
            "⎿ "@ + (if res.len() == 0 {
                "(ok)"@
            } else {
                res
            }),
        )
    } else if etype == "tool.failed"@ {
        tool_line(p, "⎿ ✗ "@ + history::payload_text(e, "error"@))
    } else if etype == "task.created"@ {
        let t = history::payload_text(e, "title"@);
        if pieces::is_blank(t) {
            p
        } else {
            tool_line(p, "◇ task: "@ + pieces::trim(t))
        }
    } else {
        p
    }
}

pub open spec fn events_written(p: Page, v: Seq<json::JsonView>, messages_only: bool) -> Page
    decreases v.len(),
{
    if v.len() == 0 {
        p
    } else {
        event_written(events_written(p, v.drop_last(), messages_only), v.last(), messages_only)
    }
}

/// A transcript that is being written.
struct Writer {
    md: String,
    in_tools: bool,
}

impl Writer {
    spec fn page(self) -> Page {
        Page { md: self.md@, in_tools: self.in_tools }
    }

    fn section(&mut self, head: &str, t: &str)
        ensures
            final(self).page() == section(old(self).page(), head@, t@),
    {
        if pieces::str_is_blank(t) {
            return;
        }
        let mut s = "\n## ".to_owned();
        s.push_str(head);
        s.push_str("\n\n");
        let b = pieces::str_trim(t);
        s.push_str(&b);
        s.push_str("\n");
        self.md.push_str(&s);
        self.in_tools = false;
    }

    fn tool_line(&mut self, line: &str)
        ensures
            final(self).page() == tool_line(old(self).page(), line@),
    {
        if !self.in_tools {
            self.md.push_str("\n");
            self.in_tools = true;
        }
        let mut s = "    ".to_owned();
        s.push_str(line);
        s.push_str("\n");
        self.md.push_str(&s);
    }

    fn event(&mut self, e: &Json, messages_only: bool)
        ensures
            final(self).page() == event_written(old(self).page(), e@, messages_only),
    {
        let etype = e.get_text("type");
        let actor = e.get_text("actor");
        if text::str_eq(&etype, "message.created") && text::str_eq(&actor, "user") {
            let t = history::payload_string(e, "text");
            self.section("👤 User", &t);
        } else if text::str_eq(&etype, "message.segment.completed") {
            let t = history::payload_string(e, "text");
            let mut head = "🤖 ".to_owned();
            let who = history::agent_of_event(e);
            head.push_str(&who);
            self.section(&head, &t);
        } else if messages_only {
        } else if text::str_eq(&etype, "thinking.completed") {
            let t = history::payload_string(e, "text");
            if !pieces::str_is_blank(&t) {
                let b = pieces::str_trim(&t);
                let q = pieces::str_replace_char(&b, '\n', "\n> ");
                let mut s = "\n> 💭 ".to_owned();
                s.push_str(&q);
                s.push_str("\n");
                self.md.push_str(&s);
                self.in_tools = false;
            }
        } else if text::str_eq(&etype, "tool.start") {
            let mut l = "🔧 ".to_owned();
            let name = history::payload_string(e, "toolName");
            l.push_str(&name);
            l.push_str(" ");
            let args = history::compact_json(json::opt_get(e.get("payload"), "arguments"), 160);
            l.push_str(&args);
            self.tool_line(&l);
        } else if text::str_eq(&etype, "tool.output") {
            let res = history::compact_json(json::opt_get(e.get("payload"), "result"), 300);
            let mut l = "⎿ ".to_owned();
            if text::char_count(&res) == 0 {
                l.push_str("(ok)");
            } else {
                l.push_str(&res);
            }
            self.tool_line(&l);
        } else if text::str_eq(&etype, "tool.failed") {
            let mut l = "⎿ ✗ ".to_owned();
            let why = history::payload_string(e, "error");
            l.push_str(&why);
            self.tool_line(&l);
        } else if text::str_eq(&etype, "task.created") {
            let t = history::payload_string(e, "title");
            if !pieces::str_is_blank(&t) {
                let mut l = "◇ task: ".to_owned();
                let b = pieces::str_trim(&t);
                l.push_str(&b);
                self.tool_line(&l);
            }
        }
    }
}

/// The transcript of a thread from its events.
pub fn transcript_md_from_events(
    t: &Thread,
    workspace: &str,
    events: &Vec<Json>,
    messages_only: bool,
) -> (r: String)
    ensures
        r@ == events_written(
            Page { md: header_of(*t, workspace@), in_tools: false },
            json::values(events@),
            messages_only,
        ).md,
{
    let mut w = Writer { md: transcript_md_header(t, workspace), in_tools: false };
    let ghost start = w.page();
    let ghost all = json::values(events@);
    proof {
        json::values_index(events@);
    }
    let mut i: usize = 0;
    while i < events.len()
        invariant
            i <= events@.len(),
            all == json::values(events@),
            all.len() == events@.len(),
            forall|k: int| 0 <= k < events@.len() ==> (#[trigger] all[k]) == json::value(events@[k]),
            w.page() == events_written(start, all.take(i as int), messages_only),
        decreases events@.len() - i,
    {
        assert(all.take(i + 1).drop_last() =~= all.take(i as int));
        assert(all.take(i + 1).last() == all[i as int]);
        w.event(&events[i], messages_only);
        i += 1;
    }
    assert(all.take(all.len() as int) =~= all);
    w.md
}

/// Who wrote a message.
pub open spec fn author_text(a: Seq<char>) -> Seq<char> {
    if a == "user"@ {
        "👤 User"@
    } else if a == "agent"@ {
        "🤖 agent"@
    } else if a == "orchestrator"@ {
        "🤖 Strobes AI Supervisor"@
    } else {
        "🤖 "@ + a
    }
}

pub open spec fn messages_written(p: Page, m: Seq<(Seq<char>, Seq<char>)>) -> Page
    decreases m.len(),
{
    if m.len() == 0 {
        p
    } else {
        section(messages_written(p, m.drop_last()), author_text(m.last().0), m.last().1)
    }
}

fn author_string(a: &str) -> (r: String)
    ensures
        r@ == author_text(a@),
{
    if text::str_eq(a, "user") {
        "👤 User".to_owned()
    } else if text::str_eq(a, "agent") {
        "🤖 agent".to_owned()
    } else if text::str_eq(a, "orchestrator") {
        "🤖 Strobes AI Supervisor".to_owned()
    } else {
        let mut s = "🤖 ".to_owned();
        s.push_str(a);
        s
    }
}

/// The transcript of a thread from its messages.
pub fn transcript_md_from_messages(t: &Thread, workspace: &str, messages: &Vec<HistMsg>) -> (r:
    String)
    ensures
        r@ == messages_written(
            Page { md: header_of(*t, workspace@), in_tools: false },
            history::authored(messages@),
        ).md,
{
    let mut w = Writer { md: transcript_md_header(t, workspace), in_tools: false };
    let ghost start = w.page();
    let ghost all = history::authored(messages@);
    let mut i: usize = 0;
    while i < messages.len()
        invariant
            i <= messages@.len(),
            all == history::authored(messages@),
            w.page() == messages_written(start, all.take(i as int)),
        decreases messages@.len() - i,
    {
        assert(all.take(i + 1).drop_last() =~= all.take(i as int));
        assert(all.take(i + 1).last() == (messages@[i as int].author@, messages@[i as int].text@));
        let who = author_string(&messages[i].author);
        w.section(&who, &messages[i].text);
        i += 1;
    }
    assert(all.take(all.len() as int) =~= all);
    w.md
}

proof fn events_only_add(p: Page, v: Seq<json::JsonView>, messages_only: bool)
    ensures
        events_written(p, v, messages_only).md.len() >= p.md.len(),
        events_written(p, v, messages_only).md.take(p.md.len() as int) == p.md,
    decreases v.len(),
{
    if v.len() == 0 {
        assert(p.md.take(p.md.len() as int) =~= p.md);
    } else {
        events_only_add(p, v.drop_last(), messages_only);
        let q = events_written(p, v.drop_last(), messages_only);
        let r = event_written(q, v.last(), messages_only);
        assert(r.md.len() >= q.md.len());
        assert(r.md.take(q.md.len() as int) =~= q.md);
        assert(r.md.take(p.md.len() as int) =~= r.md.take(q.md.len() as int).take(
            p.md.len() as int,
        ));
    }
}

/// A transcript begins with the heading of its thread, whatever happened in it.
pub proof fn transcripts_begin_with_their_heading(
    t: Thread,
    workspace: Seq<char>,
    v: Seq<json::JsonView>,
    messages_only: bool,
)
    ensures
        ({
            let head = header_of(t, workspace);
            let md = events_written(Page { md: head, in_tools: false }, v, messages_only).md;
            md.len() >= head.len() && md.take(head.len() as int) == head
        }),
{
    events_only_add(
        Page { md: header_of(t, workspace), in_tools: false },
        v,
        messages_only,
    );
}

// ---- the export ------------------------------------------------------------------------------

/// The messages of a thread as a list of values.
pub open spec fn message_records(m: Seq<(Seq<char>, Seq<char>)>) -> json::JsonView {
    json::JsonView::Arr(
        m.map_values(
            |x: (Seq<char>, Seq<char>)|
                json::JsonView::Obj(
                    json::no_entries()
                        .push(("author"@, json::JsonView::Str(x.0)))
                        .push(("text"@, json::JsonView::Str(x.1))),
                ),
        ),
    )
}

/// The messages of a thread as a JSON document.
pub fn messages_json(messages: &Vec<HistMsg>) -> (r: String)
    ensures
        r@ == json::pretty_text(
            json::normal(message_records(history::authored(messages@))),
        ),
{
    let ghost all = history::authored(messages@);
    let ghost want = message_records(all)->Arr_0;
    let mut out: Vec<Json> = Vec::new();
    assert(want.take(0) =~= Seq::empty());
    let mut i: usize = 0;
    while i < messages.len()
        invariant
            i <= messages@.len(),
            all == history::authored(messages@),
            want == message_records(all)->Arr_0,
            json::values(out@) == want.take(i as int),
        decreases messages@.len() - i,
    {
        assert(all[i as int] == (messages@[i as int].author@, messages@[i as int].text@));
        let mut o = json::no_fields();
        json::put_text(&mut o, "author", &messages[i].author);
        json::put_text(&mut o, "text", &messages[i].text);
        let j = Json::Obj(o);
        out.push(j);
        assert(want.take(i + 1) =~= want.take(i as int).push(want[i as int]));
        i += 1;
    }
    assert(want.take(want.len() as int) =~= want);
    json::to_pretty_text(&Json::Arr(out))
}

/// The events of a thread as a JSON document.
pub fn events_json(events: Vec<Json>) -> (r: String)
    ensures
        r@ == json::pretty_text(json::normal(json::JsonView::Arr(json::values(events@)))),
{
    json::to_pretty_text(&Json::Arr(events))
}

/// What a thread's file holds, and the number of entries in it. The events are
/// preferred; a thread without any has its messages, and one without messages
/// gets no file.
pub open spec fn file_of(
    t: Thread,
    workspace: Seq<char>,
    ev: Seq<json::JsonView>,
    m: Seq<(Seq<char>, Seq<char>)>,
    as_json: bool,
    messages_only: bool,
) -> Option<(Seq<char>, nat)> {
    let head = Page { md: header_of(t, workspace), in_tools: false };
    if ev.len() > 0 {
        Some(
            (
                if as_json {
                    json::pretty_text(json::normal(json::JsonView::Arr(ev)))
                } else {
                    events_written(head, ev, messages_only).md
                },
                ev.len(),
            ),
        )
    } else if m.len() > 0 {
        Some(
            (
                if as_json {
                    json::pretty_text(json::normal(message_records(m)))
                } else {
                    messages_written(head, m).md
                },
                m.len(),
            ),
        )
    } else {
        None
    }
}

/// What a thread's file holds, and the number of entries in it; nothing for a
/// thread that is empty.
pub fn export_thread(
    t: &Thread,
    workspace: &str,
    events: Vec<Json>,
    messages: &Vec<HistMsg>,
    format: &str,
    messages_only: bool,
) -> (r: Option<(String, usize)>)
    ensures
        match r {
            Some((body, n)) => file_of(
                *t,
                workspace@,
                json::values(events@),
                history::authored(messages@),
                format@ == "json"@,
                messages_only,
            ) == Some((body@, n as nat)),
            None => file_of(
                *t,
                workspace@,
                json::values(events@),
                history::authored(messages@),
                format@ == "json"@,
                messages_only,
            ) is None,
        },
{
    proof {
        json::values_index(events@);
    }
    let as_json = text::str_eq(format, "json");
    let n: usize = events.len();
    if n > 0 {
        if as_json {
            Some((events_json(events), n))
        } else {
            Some((transcript_md_from_events(t, workspace, &events, messages_only), n))
        }
    } else {
        let k: usize = messages.len();
        if k == 0 {
            None
        } else if as_json {
            Some((messages_json(messages), k))
        } else {
            Some((transcript_md_from_messages(t, workspace, messages), k))
        }
    }
}

/// Transcripts are written as Markdown or as JSON.
pub fn check_format(format: &str) -> (r: Result<(), String>)
    ensures
        match r {
            Ok(_) => format@ == "md"@ || format@ == "json"@,
            Err(e) => format@ != "md"@ && format@ != "json"@ && e@ == "unknown format '"@ + format@
                + "' — use md or json"@,
        },
{
    if text::str_eq(format, "md") || text::str_eq(format, "json") {
        Ok(())
    } else {
        let mut e = "unknown format '".to_owned();
        e.push_str(format);
        e.push_str("' — use md or json");
        Err(e)
    }
}

/// The threads that are exported: the one that was asked for, or all of them.
/// One that the workspace does not have is an error.
pub fn threads_to_export(threads: &Vec<Thread>, only: &Option<String>, workspace: &str) -> (r:
    Result<Vec<usize>, String>)
    ensures
        match *only {
            None => r matches Ok(v) && v@ == Seq::new(threads@.len(), |i: int| i as usize),
            Some(id) => match r {
                Ok(v) => v@.len() > 0 && v@ == positions_of(threads@, id@, threads@.len() as int),
                Err(e) => positions_of(threads@, id@, threads@.len() as int).len() == 0 && e@
                    == "thread "@ + id@ + " not found in workspace "@ + workspace@,
            },
        },
{
    let n: usize = threads.len();
    let mut out: Vec<usize> = Vec::new();
    let mut i: usize = 0;
    while i < n
        invariant
            i <= n,
            n == threads@.len(),
            match *only {
                None => out@ == Seq::new(i as nat, |k: int| k as usize),
                Some(id) => out@ == positions_of(threads@, id@, i as int),
            },
        decreases n - i,
    {
        match only {
            None => {
                out.push(i);
                assert(out@ =~= Seq::new((i + 1) as nat, |k: int| k as usize));
            },
            Some(id) => {
                if text::str_eq(&threads[i].id, id) {
                    out.push(i);
                }
            },
        }
        i += 1;
    }
    match only {
        None => Ok(out),
        Some(id) => if out.len() == 0 {
            let mut e = "thread ".to_owned();
            e.push_str(id);
            e.push_str(" not found in workspace ");
            e.push_str(workspace);
            Err(e)
        } else {
            Ok(out)
        },
    }
}

/// The positions of the threads of that id among the first `n`.
pub open spec fn positions_of(v: Seq<Thread>, id: Seq<char>, n: int) -> Seq<usize>
    decreases n,
{
    if n <= 0 {
        Seq::empty()
    } else if v[n - 1].id@ == id {
        positions_of(v, id, n - 1).push((n - 1) as usize)
    } else {
        positions_of(v, id, n - 1)
    }
}

/// One row of the index.
pub struct Exported {
    pub file: String,
    pub thread: Thread,
    pub count: usize,
}

pub open spec fn index_row(number: nat, e: Exported) -> Seq<char> {
    "| "@ + digits::dec(number) + " | "@ + pieces::replace_char(
        label_text(e.thread.title@, e.thread.id@),
        '|',
        "\\|"@,
    ) + " | "@ + e.thread.status@ + " | "@ + digits::dec(e.count as nat) + " | [`"@ + e.file@
        + "`]("@ + e.file@ + ") |\n"@
}

pub open spec fn index_rows(v: Seq<Exported>) -> Seq<char>
    decreases v.len(),
{
    if v.len() == 0 {
        Seq::empty()
    } else {
        index_rows(v.drop_last()) + index_row(v.len(), v.last())
    }
}

/// The index of an export.
pub open spec fn index_text(name: Seq<char>, workspace: Seq<char>, v: Seq<Exported>) -> Seq<char> {
    "# Transcripts — "@ + name + "\n\n- **Workspace:** `"@ + workspace + "`\n\n"@
        + "| # | Thread | Status | Events | File |\n|--:|--------|--------|-------:|------|\n"@
        + index_rows(v)
}

/// The ids of all threads can be cut for display.
pub open spec fn ids_can_be_cut(v: Seq<Exported>) -> bool {
    forall|i: int| 0 <= i < v.len() ==> editor::can_cut((#[trigger] v[i]).thread.id@, 8)
}

/// The index of an export.
pub fn export_index(name: &str, workspace: &str, v: &Vec<Exported>) -> (r: String)
    requires
        ids_can_be_cut(v@),
    ensures
        r@ == index_text(name@, workspace@, v@),
{
    let mut s = "# Transcripts — ".to_owned();
    s.push_str(name);
    s.push_str("\n\n- **Workspace:** `");
    s.push_str(workspace);
    s.push_str("`\n\n");
    s.push_str("| # | Thread | Status | Events | File |\n|--:|--------|--------|-------:|------|\n");
    let mut rows = String::new();
    let mut i: usize = 0;
    while i < v.len()
        invariant
            i <= v@.len(),
            ids_can_be_cut(v@),
            rows@ == index_rows(v@.take(i as int)),
        decreases v@.len() - i,
    {
        assert(v@.take(i + 1).drop_last() =~= v@.take(i as int));
        assert(v@.take(i + 1).last() == v@[i as int]);
        let mut l = "| ".to_owned();
        let n = digits::usize_to_string(i + 1);
        l.push_str(&n);
        l.push_str(" | ");
        let label = thread_label(&v[i].thread);
        let safe = pieces::str_replace_char(&label, '|', "\\|");
        l.push_str(&safe);
        l.push_str(" | ");
        l.push_str(&v[i].thread.status);
        l.push_str(" | ");
        let c = digits::usize_to_string(v[i].count);
        l.push_str(&c);
        l.push_str(" | [`");
        l.push_str(&v[i].file);
        l.push_str("`](");
        l.push_str(&v[i].file);
        l.push_str(") |\n");
        rows.push_str(&l);
        i += 1;
    }
    assert(v@.take(v@.len() as int) =~= v@);
    s.push_str(&rows);
    s
}

// ---- paging ------------------------------------------------------------------------------------

/// The events that are asked for at once.
pub const PAGE: u32 = 1000;

/// The number of the last event that has one.
pub open spec fn last_seq(v: Seq<json::JsonView>) -> Option<int>
    decreases v.len(),
{
    if v.len() == 0 {
        None
    } else {
        match json::as_int(json::field(v.last(), "seq"@)) {
            Some(n) => Some(n),
            None => last_seq(v.drop_last()),
        }
    }
}

/// Where the next page begins: a full page whose last number is beyond `after`
/// has one behind it.
pub open spec fn next_after(v: Seq<json::JsonView>, after: i64) -> Option<int> {
    match last_seq(v) {
        Some(n) if v.len() as u32 == PAGE && n > after => Some(n),
        _ => None,
    }
}

/// Where the next page begins.
pub fn next_page(batch: &Vec<Json>, after: i64) -> (r: Option<i64>)
    ensures
        match r {
            Some(n) => next_after(json::values(batch@), after) == Some(n as int) && n > after,
            None => next_after(json::values(batch@), after) is None,
        },
{
    let ghost all = json::values(batch@);
    proof {
        json::values_index(batch@);
    }
    let mut k: usize = batch.len();
    assert(all.take(k as int) =~= all);
    let mut found: Option<i64> = None;
    while k > 0 && found.is_none()
        invariant
            k <= batch@.len(),
            all == json::values(batch@),
            all.len() == batch@.len(),
            forall|j: int| 0 <= j < batch@.len() ==> (#[trigger] all[j]) == json::value(batch@[j]),
            match found {
                Some(n) => last_seq(all) == Some(n as int),
                None => last_seq(all) == last_seq(all.take(k as int)),
            },
        decreases k,
    {
        assert(all.take(k as int).last() == all[k - 1]);
        assert(all.take(k as int).drop_last() =~= all.take(k - 1));
        found = json::opt_int(batch[k - 1].get("seq"));
        k -= 1;
    }
    match found {
        Some(n) => {
            let count: u32 = #[verifier::truncate] (batch.len() as u32);
            if count == PAGE && n > after {
                Some(n)
            } else {
                None
            }
        },
        None => None,
    }
}

} // verus!
