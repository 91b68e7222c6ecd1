//! Exports: the files that keep what was said in the threads of a workspace.

use vstd::prelude::*;
use crate::api::Thread;
use crate::digits;
use crate::json;
use crate::json::JsonView;
use crate::laws::results::says;
use crate::laws::texts;
use crate::pieces;
use crate::text;
use crate::transcript;
use crate::transcript::{Exported, Page};

verus! {

broadcast use vstd::seq::group_seq_axioms;

/// A transcript begins with the title of the thread, its id and its workspace, and
/// with its status and date where they are known.
pub proof fn transcripts_name_their_thread(
    title: Seq<char>,
    id: Seq<char>,
    workspace: Seq<char>,
    status: Seq<char>,
    day: Seq<char>,
    created: Option<Seq<char>>,
)
    ensures
        ({
            let x = transcript::header_text(title, id, workspace, status, created);
            &&& title.len() > 0 ==> text::contains(x, "# "@ + title)
            &&& title.len() == 0 ==> text::contains(x, "# "@ + "(untitled)"@)
            &&& text::contains(x, id)
            &&& text::contains(x, workspace)
            &&& status.len() > 0 ==> text::contains(x, "- **Status:** "@ + status)
            &&& created == Some(day) && day.len() > 0 ==> text::contains(x, "- **Created:** "@ + day)
        }),
{
    let x = transcript::header_text(title, id, workspace, status, created);
    let named = transcript::title_or(title);
    let standing = if status.len() == 0 {
        Seq::empty()
    } else {
        "- **Status:** "@ + status + "\n"@
    };
    let dated = match created {
        Some(c) if c.len() > 0 => "- **Created:** "@ + c + "\n"@,
        _ => Seq::empty(),
    };
    let t0 = "# "@;
    let t1 = t0 + named;
    let t2 = t1 + "\n\n"@;
    let t3 = t2 + "- **Thread:** `"@;
    let t4 = t3 + id;
    let t5 = t4 + "`\n"@;
    let t6 = t5 + "- **Workspace:** `"@;
    let t7 = t6 + workspace;
    let t8 = t7 + "`\n"@;
    let t9 = t8 + standing;
    let t10 = t9 + dated;
    let t11 = t10 + "\n---\n\n"@;
    assert(text::contains(t11, id)) by {
        texts::texts_hold_themselves(id);
        texts::longer_texts_hold_it(t3, id, id);
        texts::longer_texts_hold_it(t4, "`\n"@, id);
        texts::longer_texts_hold_it(t5, "- **Workspace:** `"@, id);
        texts::longer_texts_hold_it(t6, workspace, id);
        texts::longer_texts_hold_it(t7, "`\n"@, id);
        texts::longer_texts_hold_it(t8, standing, id);
        texts::longer_texts_hold_it(t9, dated, id);
        texts::longer_texts_hold_it(t10, "\n---\n\n"@, id);
    }
    assert(text::contains(t11, workspace)) by {
        texts::texts_hold_themselves(workspace);
        texts::longer_texts_hold_it(t6, workspace, workspace);
        texts::longer_texts_hold_it(t7, "`\n"@, workspace);
        texts::longer_texts_hold_it(t8, standing, workspace);
        texts::longer_texts_hold_it(t9, dated, workspace);
        texts::longer_texts_hold_it(t10, "\n---\n\n"@, workspace);
    }
    assert(x == t11);
    texts::texts_hold_themselves(t1);
    texts::longer_texts_hold_it(t1, "\n\n"@, t1);
    texts::longer_texts_hold_it(t2, "- **Thread:** `"@, t1);
    texts::longer_texts_hold_it(t3, id, t1);
    texts::longer_texts_hold_it(t4, "`\n"@, t1);
    texts::longer_texts_hold_it(t5, "- **Workspace:** `"@, t1);
    texts::longer_texts_hold_it(t6, workspace, t1);
    texts::longer_texts_hold_it(t7, "`\n"@, t1);
    texts::longer_texts_hold_it(t8, standing, t1);
    texts::longer_texts_hold_it(t9, dated, t1);
    texts::longer_texts_hold_it(t10, "\n---\n\n"@, t1);
    if status.len() > 0 {
        let p = "- **Status:** "@ + status;
        texts::texts_hold_themselves(p);
        texts::longer_texts_hold_it(p, "\n"@, p);
        texts::longer_texts_hold_it(t8, standing, p);
        texts::longer_texts_hold_it(t9, dated, p);
        texts::longer_texts_hold_it(t10, "\n---\n\n"@, p);
    }
    if created == Some(day) && day.len() > 0 {
        let p = "- **Created:** "@ + day;
        texts::texts_hold_themselves(p);
        texts::longer_texts_hold_it(p, "\n"@, p);
        texts::longer_texts_hold_it(t9, dated, p);
        texts::longer_texts_hold_it(t10, "\n---\n\n"@, p);
    }
}

/// A thread is kept by its events, or by its messages where it has none; without
/// either there is no file. The number that goes with the file is theirs.
pub proof fn threads_are_kept_by_their_events(
    t: Thread,
    workspace: Seq<char>,
    ev: Seq<JsonView>,
    m: Seq<(Seq<char>, Seq<char>)>,
    only: bool,
)
    ensures
        ev.len() == 0 && m.len() == 0 ==> transcript::file_of(t, workspace, ev, m, true, only)
            is None && transcript::file_of(t, workspace, ev, m, false, only) is None,
        ev.len() > 0 ==> {
            &&& transcript::file_of(t, workspace, ev, m, true, only) == Some(
                (json::pretty_text(json::normal(JsonView::Arr(ev))), ev.len()),
            )
            &&& transcript::file_of(t, workspace, ev, m, false, only) == Some(
                (
                    transcript::events_written(
                        Page { md: transcript::header_of(t, workspace), in_tools: false },
                        ev,
                        only,
                    ).md,
                    ev.len(),
                ),
            )
        },
        ev.len() == 0 && m.len() > 0 ==> {
            &&& transcript::file_of(t, workspace, ev, m, true, only) == Some(
                (json::pretty_text(json::normal(transcript::message_records(m))), m.len()),
            )
            &&& transcript::file_of(t, workspace, ev, m, false, only) == Some(
                (
                    transcript::messages_written(
                        Page { md: transcript::header_of(t, workspace), in_tools: false },
                        m,
                    ).md,
                    m.len(),
                ),
            )
        },
{
}

/// The messages are kept one by one, each with its author and its text.
pub proof fn kept_messages_name_their_author(m: Seq<(Seq<char>, Seq<char>)>, k: int)
    requires
        0 <= k < m.len(),
    ensures
        transcript::message_records(m) matches JsonView::Arr(v) && v.len() == m.len() && says(
            v[k],
            "author"@,
            m[k].0,
        ) && says(v[k], "text"@, m[k].1),
{
    match transcript::message_records(m) {
        JsonView::Arr(v) => {
            match v[k] {
                JsonView::Obj(e) => {
                    assert(e[0] == ("author"@, JsonView::Str(m[k].0)));
                    assert(e[1] == ("text"@, JsonView::Str(m[k].1)));
                },
                _ => {},
            }
        },
        _ => {},
    }
}

/// A page of messages grows by a section for each that says something: under its
/// heading stands what was said, without the white space around it.
pub proof fn sections_hold_what_was_said(p: Page, head: Seq<char>, t: Seq<char>)
    ensures
        pieces::is_blank(t) ==> transcript::section(p, head, t) == p,
        !pieces::is_blank(t) ==> {
            let q = transcript::section(p, head, t);
            &&& text::starts_with(q.md, p.md)
            &&& text::contains(q.md.skip(p.md.len() as int), "## "@ + head)
            &&& text::contains(q.md.skip(p.md.len() as int), pieces::trim(t))
            &&& !q.in_tools
        },
{
    if !pieces::is_blank(t) {
        let q = transcript::section(p, head, t);
        let added = "\n## "@ + head + "\n\n"@ + pieces::trim(t) + "\n"@;
        assert(q.md == p.md + added);
        assert(q.md.subrange(0, p.md.len() as int) =~= p.md);
        assert(q.md.skip(p.md.len() as int) =~= added);
        let rest = "\n\n"@ + pieces::trim(t) + "\n"@;
        reveal_strlit("\n## ");
        reveal_strlit("## ");
        reveal_strlit("\n");
        assert(added =~= "\n"@ + ("## "@ + head) + rest);
        texts::wholes_hold_their_parts("\n"@, "## "@ + head, rest);
        texts::wholes_hold_their_parts("\n## "@ + head + "\n\n"@, pieces::trim(t), "\n"@);
    }
}

/// The index names the workspace and has a row for each thread, in their order.
pub proof fn indexes_list_every_thread(
    name: Seq<char>,
    workspace: Seq<char>,
    v: Seq<Exported>,
    e: Exported,
)
    ensures
        text::contains(transcript::index_text(name, workspace, v), name),
        text::contains(transcript::index_text(name, workspace, v), workspace),
        text::contains(transcript::index_text(name, workspace, v), transcript::index_rows(v)),
        transcript::index_rows(v.push(e)) == transcript::index_rows(v) + transcript::index_row(
            v.len() + 1,
            e,
        ),
        transcript::index_rows(Seq::empty()).len() == 0,
{
    assert(v.push(e).drop_last() =~= v);
    let t0 = "# Transcripts — "@;
    let t1 = t0 + name;
    let t2 = t1 + "\n\n- **Workspace:** `"@;
    let t3 = t2 + workspace;
    let t4 = t3 + "`\n\n"@;
    let t5 = t4 + "| # | Thread | Status | Events | File |\n|--:|--------|--------|-------:|------|\n"@;
    let t6 = t5 + transcript::index_rows(v);
    assert(text::contains(t6, name)) by {
        texts::texts_hold_themselves(name);
        texts::longer_texts_hold_it(t0, name, name);
        texts::longer_texts_hold_it(t1, "\n\n- **Workspace:** `"@, name);
        texts::longer_texts_hold_it(t2, workspace, name);
        texts::longer_texts_hold_it(t3, "`\n\n"@, name);
        texts::longer_texts_hold_it(t4, "| # | Thread | Status | Events | File |\n|--:|--------|--------|-------:|------|\n"@, name);
        texts::longer_texts_hold_it(t5, transcript::index_rows(v), name);
    }
    assert(text::contains(t6, workspace)) by {
        texts::texts_hold_themselves(workspace);
        texts::longer_texts_hold_it(t2, workspace, workspace);
        texts::longer_texts_hold_it(t3, "`\n\n"@, workspace);
        texts::longer_texts_hold_it(t4, "| # | Thread | Status | Events | File |\n|--:|--------|--------|-------:|------|\n"@, workspace);
        texts::longer_texts_hold_it(t5, transcript::index_rows(v), workspace);
    }
    assert(text::contains(t6, transcript::index_rows(v))) by {
        texts::texts_hold_themselves(transcript::index_rows(v));
        texts::longer_texts_hold_it(t5, transcript::index_rows(v), transcript::index_rows(v));
    }
}

/// The row of a thread tells its number, status, how much was kept of it and in
/// which file; a bar in its title is escaped.
pub proof fn index_rows_name_the_file(n: nat, e: Exported)
    ensures
        ({
            let x = transcript::index_row(n, e);
            &&& text::starts_with(x, "| "@ + digits::dec(n))
            &&& text::contains(x, e.thread.status@)
            &&& text::contains(x, digits::dec(e.count as nat))
            &&& text::contains(x, e.file@)
            &&& text::contains(
                x,
                pieces::replace_char(
                    transcript::label_text(e.thread.title@, e.thread.id@),
                    '|',
                    "\\|"@,
                ),
            )
        }),
{
    let x = transcript::index_row(n, e);
    let label = pieces::replace_char(
        transcript::label_text(e.thread.title@, e.thread.id@),
        '|',
        "\\|"@,
    );
    let count = digits::dec(e.count as nat);
    let t0 = "| "@;
    let t1 = t0 + digits::dec(n);
    let t2 = t1 + " | "@;
    let t3 = t2 + label;
    let t4 = t3 + " | "@;
    let t5 = t4 + e.thread.status@;
    let t6 = t5 + " | "@;
    let t7 = t6 + count;
    let t8 = t7 + " | [`"@;
    let t9 = t8 + e.file@;
    let t10 = t9 + "`]("@;
    let t11 = t10 + e.file@;
    let t12 = t11 + ") |\n"@;
    assert(text::contains(t12, label)) by {
        texts::texts_hold_themselves(label);
        texts::longer_texts_hold_it(t2, label, label);
        texts::longer_texts_hold_it(t3, " | "@, label);
        texts::longer_texts_hold_it(t4, e.thread.status@, label);
        texts::longer_texts_hold_it(t5, " | "@, label);
        texts::longer_texts_hold_it(t6, count, label);
        texts::longer_texts_hold_it(t7, " | [`"@, label);
        texts::longer_texts_hold_it(t8, e.file@, label);
        texts::longer_texts_hold_it(t9, "`]("@, label);
        texts::longer_texts_hold_it(t10, e.file@, label);
        texts::longer_texts_hold_it(t11, ") |\n"@, label);
    }
    assert(text::contains(t12, e.thread.status@)) by {
        texts::texts_hold_themselves(e.thread.status@);
        texts::longer_texts_hold_it(t4, e.thread.status@, e.thread.status@);
        texts::longer_texts_hold_it(t5, " | "@, e.thread.status@);
        texts::longer_texts_hold_it(t6, count, e.thread.status@);
        texts::longer_texts_hold_it(t7, " | [`"@, e.thread.status@);
        texts::longer_texts_hold_it(t8, e.file@, e.thread.status@);
        texts::longer_texts_hold_it(t9, "`]("@, e.thread.status@);
        texts::longer_texts_hold_it(t10, e.file@, e.thread.status@);
        texts::longer_texts_hold_it(t11, ") |\n"@, e.thread.status@);
    }
    assert(text::contains(t12, count)) by {
        texts::texts_hold_themselves(count);
        texts::longer_texts_hold_it(t6, count, count);
        texts::longer_texts_hold_it(t7, " | [`"@, count);
        texts::longer_texts_hold_it(t8, e.file@, count);
        texts::longer_texts_hold_it(t9, "`]("@, count);
        texts::longer_texts_hold_it(t10, e.file@, count);
        texts::longer_texts_hold_it(t11, ") |\n"@, count);
    }
    assert(text::contains(t12, e.file@)) by {
        texts::texts_hold_themselves(e.file@);
        texts::longer_texts_hold_it(t8, e.file@, e.file@);
        texts::longer_texts_hold_it(t9, "`]("@, e.file@);
        texts::longer_texts_hold_it(t10, e.file@, e.file@);
        texts::longer_texts_hold_it(t11, ") |\n"@, e.file@);
    }
    assert(x == t12);
    assert(x.subrange(0, t1.len() as int) =~= t1);
}

/// A thread is called by its title and the start of its id.
pub proof fn threads_are_called_by_their_title(title: Seq<char>, id: Seq<char>)
    ensures
        title.len() > 0 ==> text::starts_with(transcript::label_text(title, id), title),
        title.len() == 0 ==> text::starts_with(transcript::label_text(title, id), "(untitled)"@),
        text::byte_len(id) <= 8 ==> text::contains(transcript::label_text(title, id), id),
{
    let t = transcript::title_or(title);
    let c = crate::editor::cut(id, 8);
    let x = transcript::label_text(title, id);
    assert(x.subrange(0, t.len() as int) =~= t);
    texts::wholes_hold_their_parts(t + " ("@, c, "…)"@);
}

} // verus!
