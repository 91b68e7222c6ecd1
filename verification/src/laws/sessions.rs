//! Sessions: how one begins, what it shows around the conversation, and what is
//! loaded into it.

use vstd::prelude::*;
use crate::api;
use crate::api::{HistMsg, Thread, Workspace};
use crate::app::AppView;
use crate::blocks::{BlockView, OverlayItemView, OverlayKind, OverlayView};
use crate::browser;
use crate::choices;
use crate::choices::LocalFile;
use crate::config;
use crate::config::{Config, Overrides};
use crate::digits;
use crate::editor;
use crate::errands;
use crate::errands::{Reason, ThreadData};
use crate::history;
use crate::json;
use crate::json::JsonView;
use crate::laws::listings;
use crate::laws::live;
use crate::laws::results::{holds, says};
use crate::laws::texts;
use crate::listing;
use crate::local;
use crate::local::Machine;
use crate::markdown;
use crate::packages;
use crate::packages::DepView;
use crate::picker;
use crate::picker::PickerView;
use crate::remote;
use crate::sarif;
use crate::sarif::FindingView;
use crate::screen;
use crate::session;
use crate::style;
use crate::style::Color;
use crate::text;
use crate::weburl;
use crate::workflow;
use crate::workflow::VarStepView;

verus! {

broadcast use {vstd::seq::group_seq_axioms, vstd::seq_lib::group_to_multiset_ensures};

// ---- the begin --------------------------------------------------------------------------------

/// A new session is about its thread and not connected; it shows who is signed in,
/// and below that which keys there are.
pub proof fn sessions_begin_with_their_thread(
    thread: Seq<char>,
    base: Seq<char>,
    tenant: Seq<char>,
    org: Seq<char>,
)
    ensures
        ({
            let s = session::new_session(thread, base, tenant, org);
            let n = s.blocks.len();
            &&& s.thread_id == thread && s.base == base
            &&& !s.connected && !s.running && s.markdown && s.follow && !s.show_thinking
            &&& s.input.len() == 0 && s.pending is None && s.overlay is None && s.stream is None
            &&& s.tasks.len() == 0 && s.session_tokens == 0
            &&& text::contains(s.auth_line, tenant)
            &&& text::contains(s.auth_line, base)
            &&& n >= 2
            &&& s.blocks[n - 1] matches BlockView::Plain(l) && l.len() == 1 && l[0].content
                == session::KEYS@
            &&& s.blocks[n - 2] matches BlockView::Plain(l) && l.len() == 1 && l[0].content == "   "@
                + s.auth_line
        }),
{
    let auth = session::auth_text(tenant, base, org);
    let org8 = editor::cut(org, 8);
    let t0 = "✔ authenticated · tenant: "@;
    let t1 = t0 + tenant;
    let t2 = t1 + " · "@;
    let t3 = t2 + base;
    let t4 = t3 + " · org "@;
    let t5 = t4 + org8;
    assert(text::contains(t5, tenant)) by {
        texts::texts_hold_themselves(tenant);
        texts::longer_texts_hold_it(t0, tenant, tenant);
        texts::longer_texts_hold_it(t1, " · "@, tenant);
        texts::longer_texts_hold_it(t2, base, tenant);
        texts::longer_texts_hold_it(t3, " · org "@, tenant);
        texts::longer_texts_hold_it(t4, org8, tenant);
    }
    assert(text::contains(t5, base)) by {
        texts::texts_hold_themselves(base);
        texts::longer_texts_hold_it(t2, base, base);
        texts::longer_texts_hold_it(t3, " · org "@, base);
        texts::longer_texts_hold_it(t4, org8, base);
    }
    assert(auth == t5);
    let lines = session::banner_lines(crate::pieces::lines(session::BANNER@));
    let all = lines.push(seq![style::styled("   "@ + auth, style::bold(Color::Green))]);
    let e = session::plain_entries(all);
    assert(e.len() == all.len());
    assert(e[all.len() - 1] == BlockView::Plain(all[all.len() - 1]));
    let s = session::new_session(thread, base, tenant, org);
    assert(s.blocks[s.blocks.len() - 2] == e[all.len() - 1]);
}

/// The models that are offered begin with the organisation's own choice; a model
/// of the table has the name it has there.
pub proof fn models_are_offered_by_name(t: Seq<(i64, Seq<char>)>, i: int)
    requires
        0 <= i < 19,
    ensures
        api::offered_models(t).len() == 19,
        api::offered_models(t)[0] == (0i64, "Default (org setting)"@),
        api::offered_models(t)[i].0 == api::BUILTIN_MODELS@[i],
        api::BUILTIN_MODELS@[i] != 0 ==> api::offered_models(t)[i].1 == api::model_text(
            t,
            Some(api::BUILTIN_MODELS@[i]),
        ),
{
}

// ---- around the conversation --------------------------------------------------------------------

/// The keys that are offered are those that do something: in a list to move and to
/// select, in a form to answer, and otherwise to open the lists; without a
/// workspace the lists that need one are starred.
pub proof fn hints_fit_what_is_open(s: AppView, o: OverlayView)
    ensures
        s.overlay == Some(o) ==> text::contains(screen::hint(s), "↑/↓ move · Enter select · "@),
        s.overlay == Some(o) && session::is_picker(o.kind) ==> text::contains(
            screen::hint(s),
            "type to search · "@,
        ),
        s.overlay == Some(o) && o.kind == OverlayKind::Threads ==> text::contains(
            screen::hint(s),
            "Esc → workspaces"@,
        ),
        s.overlay is None && s.pending is Some ==> screen::hint(s)
            == "  type your answer · Enter submit"@,
        s.overlay is None && s.pending is None && !s.select_mode && !s.has_workspace
            ==> text::contains(screen::hint(s), "*"@),
        s.overlay is None && s.pending is None && !s.select_mode ==> text::starts_with(
            screen::hint(s),
            "  ^W workspaces · ^O threads · ^P model · ^F findings"@,
        ),
{
    if s.overlay == Some(o) {
        let search = if session::is_picker(o.kind) {
            "type to search · "@
        } else {
            Seq::empty()
        };
        let out = match o.kind {
            OverlayKind::Threads => "Esc → workspaces"@,
            OverlayKind::Workspaces => "Esc → quit"@,
            _ => "Esc close"@,
        };
        let t0 = "  "@;
        let t1 = t0 + search;
        let t2 = t1 + "↑/↓ move · Enter select · "@;
        let t3 = t2 + out;
        let t4 = t3 + " · ^C quit"@;
        assert(text::contains(t4, search)) by {
            texts::texts_hold_themselves(search);
            texts::longer_texts_hold_it(t0, search, search);
            texts::longer_texts_hold_it(t1, "↑/↓ move · Enter select · "@, search);
            texts::longer_texts_hold_it(t2, out, search);
            texts::longer_texts_hold_it(t3, " · ^C quit"@, search);
        }
        assert(text::contains(t4, "↑/↓ move · Enter select · "@)) by {
            texts::texts_hold_themselves("↑/↓ move · Enter select · "@);
            texts::longer_texts_hold_it(t1, "↑/↓ move · Enter select · "@, "↑/↓ move · Enter select · "@);
            texts::longer_texts_hold_it(t2, out, "↑/↓ move · Enter select · "@);
            texts::longer_texts_hold_it(t3, " · ^C quit"@, "↑/↓ move · Enter select · "@);
        }
        assert(text::contains(t4, out)) by {
            texts::texts_hold_themselves(out);
            texts::longer_texts_hold_it(t2, out, out);
            texts::longer_texts_hold_it(t3, " · ^C quit"@, out);
        }
        assert(screen::hint(s) == t4);
    } else if s.overlay is None && s.pending is None && !s.select_mode {
        let star = if s.has_workspace {
            Seq::empty()
        } else {
            "*"@
        };
        let head = "  ^W workspaces · ^O threads · ^P model · ^F findings"@;
        let last = " · ^L files · ^E open · ^Y copy · ^T thinking · ^R md · ^S select · Esc back · ^C quit"@;
        let u0 = head;
        let u1 = u0 + star;
        let u2 = u1 + " · ^A approvals"@;
        let u3 = u2 + star;
        let u4 = u3 + last;
        assert(text::contains(u4, star)) by {
            texts::texts_hold_themselves(star);
            texts::longer_texts_hold_it(u0, star, star);
            texts::longer_texts_hold_it(u1, " · ^A approvals"@, star);
            texts::longer_texts_hold_it(u2, star, star);
            texts::longer_texts_hold_it(u3, last, star);
        }
        assert(screen::hint(s) == u4);
        assert(u4.subrange(0, head.len() as int) =~= head);
    }
}

/// The title of a list is its own, with how many rows there are and what is
/// searched for.
pub proof fn lists_are_titled(o: OverlayView)
    ensures
        text::contains(screen::overlay_title_text(o), o.title),
        !o.detail_open ==> text::contains(
            screen::overlay_title_text(o),
            digits::dec(crate::blocks::visible_items(o).len()),
        ),
        !o.detail_open && o.filter.len() > 0 ==> text::contains(
            screen::overlay_title_text(o),
            " · search: "@ + o.filter,
        ),
        o.detail_open ==> text::contains(screen::overlay_title_text(o), "detail"@),
{
    if o.detail_open {
        texts::wholes_hold_their_parts(" "@, o.title, " — detail (Esc back) "@);
        reveal_strlit(" — detail (Esc back) ");
        reveal_strlit("detail");
        let x = " — detail (Esc back) "@;
        assert(x.subrange(3, 9) =~= "detail"@);
        assert(text::occurs_at(x, "detail"@, 3));
        texts::longer_texts_hold_it(" "@ + o.title, x, "detail"@);
    } else {
        let n = digits::dec(crate::blocks::visible_items(o).len());
        let out = screen::overlay_way_out(o.kind);
        let sought = if o.filter.len() == 0 {
            if session::is_picker(o.kind) {
                " · type to search"@
            } else {
                Seq::empty()
            }
        } else {
            " · search: "@ + o.filter
        };
        let t0 = " "@;
        let t1 = t0 + o.title;
        let t2 = t1 + " ("@;
        let t3 = t2 + n;
        let t4 = t3 + ") — Enter select · "@;
        let t5 = t4 + out;
        let t6 = t5 + " · ^C quit"@;
        let t7 = t6 + sought;
        let t8 = t7 + " "@;
        assert(text::contains(t8, o.title)) by {
            texts::texts_hold_themselves(o.title);
            texts::longer_texts_hold_it(t0, o.title, o.title);
            texts::longer_texts_hold_it(t1, " ("@, o.title);
            texts::longer_texts_hold_it(t2, n, o.title);
            texts::longer_texts_hold_it(t3, ") — Enter select · "@, o.title);
            texts::longer_texts_hold_it(t4, out, o.title);
            texts::longer_texts_hold_it(t5, " · ^C quit"@, o.title);
            texts::longer_texts_hold_it(t6, sought, o.title);
            texts::longer_texts_hold_it(t7, " "@, o.title);
        }
        assert(text::contains(t8, n)) by {
            texts::texts_hold_themselves(n);
            texts::longer_texts_hold_it(t2, n, n);
            texts::longer_texts_hold_it(t3, ") — Enter select · "@, n);
            texts::longer_texts_hold_it(t4, out, n);
            texts::longer_texts_hold_it(t5, " · ^C quit"@, n);
            texts::longer_texts_hold_it(t6, sought, n);
            texts::longer_texts_hold_it(t7, " "@, n);
        }
        assert(text::contains(t8, sought)) by {
            texts::texts_hold_themselves(sought);
            texts::longer_texts_hold_it(t6, sought, sought);
            texts::longer_texts_hold_it(t7, " "@, sought);
        }
        assert(screen::overlay_title_text(o) == t8);
    }
}

/// The rows of the picker's title: its own, how many rows are kept, and what is
/// searched for.
pub proof fn pickers_are_titled(p: PickerView, title: Seq<char>)
    ensures
        text::contains(picker::titled(p, title), title),
        text::contains(picker::titled(p, title), digits::dec(picker::kept(p).len())),
        p.filter.len() > 0 ==> text::contains(picker::titled(p, title), p.filter),
{
    let n = digits::dec(picker::kept(p).len());
    let sought = if p.filter.len() == 0 {
        Seq::empty()
    } else {
        " — search: "@ + p.filter
    };
    let t0 = " "@;
    let t1 = t0 + title;
    let t2 = t1 + " ("@;
    let t3 = t2 + n;
    let t4 = t3 + ")"@;
    let t5 = t4 + sought;
    let t6 = t5 + " "@;
    assert(text::contains(t6, title)) by {
        texts::texts_hold_themselves(title);
        texts::longer_texts_hold_it(t0, title, title);
        texts::longer_texts_hold_it(t1, " ("@, title);
        texts::longer_texts_hold_it(t2, n, title);
        texts::longer_texts_hold_it(t3, ")"@, title);
        texts::longer_texts_hold_it(t4, sought, title);
        texts::longer_texts_hold_it(t5, " "@, title);
    }
    assert(text::contains(t6, n)) by {
        texts::texts_hold_themselves(n);
        texts::longer_texts_hold_it(t2, n, n);
        texts::longer_texts_hold_it(t3, ")"@, n);
        texts::longer_texts_hold_it(t4, sought, n);
        texts::longer_texts_hold_it(t5, " "@, n);
    }
    assert(picker::titled(p, title) == t6);
    if p.filter.len() > 0 {
        texts::texts_hold_themselves(p.filter);
        texts::longer_texts_hold_it(" — search: "@, p.filter, p.filter);
        texts::longer_texts_hold_it(t4, sought, p.filter);
        texts::longer_texts_hold_it(t5, " "@, p.filter);
    }
}

/// Where the session is told: the workspace, then the task.
pub proof fn places_are_told(s: AppView, w: Seq<char>, t: Seq<char>)
    requires
        w.len() <= 28,
        t.len() <= 32,
    ensures
        s.workspace_name == Some(w) && s.task_label == Some(t) ==> screen::location(s) == seq![
            "⊞ "@ + w,
            "▷ "@ + t,
        ],
        s.workspace_name == Some(w) && s.task_label is None ==> screen::location(s) == seq![
            "⊞ "@ + w,
        ],
        s.workspace_name is None && s.task_label == Some(t) ==> screen::location(s) == seq![
            "▷ "@ + t,
        ],
        s.workspace_name is None && s.task_label is None ==> screen::location(s).len() == 0,
{
    assert(seq!["⊞ "@ + w].push("▷ "@ + t) =~= seq!["⊞ "@ + w, "▷ "@ + t]);
    assert(Seq::<Seq<char>>::empty().push("▷ "@ + t) =~= seq!["▷ "@ + t]);
}

/// The list of threads names the workspace above it, and the list of models the
/// current one.
pub proof fn lists_say_where_they_are(s: AppView, w: Seq<char>)
    ensures
        ({
            let v = screen::overlay_banner_lines(s, OverlayKind::Threads);
            let m = screen::overlay_banner_lines(s, OverlayKind::Models);
            &&& v.len() > 0 && m.len() > 0
            &&& s.workspace_name == Some(w) ==> v.last()[0].content == "   ⊞ workspace: "@ + w
            &&& s.workspace_name is None ==> v.last()[0].content == "   ⊞ workspace: "@
                + "(no workspace — all threads)"@
            &&& m.last()[0].content == "   ⚙ current model: "@ + api::model_text(
                s.models,
                s.current_model,
            )
            &&& s.auth_line.len() > 0 ==> v[v.len() - 2][0].content == "   "@ + s.auth_line
        }),
{
}

/// What is shown is what was drawn, line by line, with plain signs where the
/// console needs them.
pub proof fn drawn_lines_are_shown(s: AppView, now: u64, tokens: Seq<char>, windows: bool, i: int)
    ensures
        ({
            let d = screen::page_streaming(s, screen::page_of(s, s.blocks), now, tokens);
            let v = screen::transcript_lines(s, now, tokens, windows);
            &&& v.len() == d.len()
            &&& 0 <= i < d.len() ==> v[i].len() == d[i].len() && forall|j: int|
                0 <= j < d[i].len() ==> (#[trigger] v[i][j]).content == screen::safe_text(
                    d[i][j].content,
                    windows,
                )
        }),
{
}

// ---- what is loaded -----------------------------------------------------------------------------

/// A thread that is loaded begins with its events, or with its messages where it
/// has none, and takes on its title and what it has cost.
pub proof fn loaded_threads_are_remembered(
    s: AppView,
    id: Seq<char>,
    d: ThreadData,
    now: u64,
    ev: Vec<crate::json::Json>,
    m: Vec<HistMsg>,
    n: i64,
)
    ensures
        d.events == Some(ev) && ev@.len() > 0 ==> errands::remembering(s, d, now)
            == history::with_events(s, json::values(ev@), now),
        d.events is None && d.messages == Some(m) ==> errands::remembering(s, d, now)
            == history::with_messages(s, history::authored(m@), now),
        d.events == Some(ev) && ev@.len() == 0 && d.messages == Some(m) ==> errands::remembering(
            s,
            d,
            now,
        ) == history::with_messages(s, history::authored(m@), now),
        d.events is None && d.messages is None ==> errands::remembering(s, d, now) == s,
        d.events is None && d.messages is None && d.run_status is None && d.threads is None
            && d.tokens == Some(n) ==> errands::thread_loaded(s, id, d, now) == (AppView {
            thread_tokens: n,
            ..s
        }),
        forall|k: int|
            0 <= k < m@.len() ==> #[trigger] history::authored(m@)[k] == (m@[k].author@, m@[k].text@),
{
}

/// The title of a loaded thread is that of the thread with its id.
pub proof fn loaded_threads_are_titled(
    s: AppView,
    id: Seq<char>,
    d: ThreadData,
    now: u64,
    ts: Vec<Thread>,
    k: int,
)
    requires
        d.threads == Some(ts),
        0 <= k < ts@.len(),
        ts@[k].id@ == id,
        ts@[k].title@.len() > 0,
        forall|j: int| 0 <= j < k ==> (#[trigger] ts@[j]).id@ != id,
    ensures
        errands::thread_loaded(s, id, d, now).title == ts@[k].title@,
{
    first_thread(ts@, id, 0, k);
}

proof fn first_thread(v: Seq<Thread>, id: Seq<char>, from: int, k: int)
    requires
        0 <= from <= k < v.len(),
        v[k].id@ == id,
        forall|j: int| from <= j < k ==> (#[trigger] v[j]).id@ != id,
    ensures
        choices::thread_at(v, id, from) == Some(v[k]),
    decreases k - from,
{
    if from < k {
        first_thread(v, id, from + 1, k);
    }
}

/// The files of a workspace are listed by name, each with its size and place;
/// without any that is said.
pub proof fn files_are_listed(s: AppView, dir: Seq<char>, v: Seq<LocalFile>, f: LocalFile, i: int)
    requires
        s.stream is None,
    ensures
        v.len() > 0 ==> (errands::files_shown(s, dir, v).overlay matches Some(o) && o.kind
            == OverlayKind::Files && o.items.len() == v.len() && text::contains(o.title, dir) && (0
            <= i < v.len() ==> o.items[i] == choices::file_item(choices::files_sorted(v)[i]))),
        v.len() == 0 ==> live::adds_line(
            s,
            errands::files_shown(s, dir, v),
            "  · "@ + ("no local workspace files yet ("@ + dir
                + ") — bind a workspace to sync"@),
            Color::Cyan,
        ),
        ({
            let r = choices::file_item(f);
            &&& text::starts_with(r.label, f.rel@)
            &&& text::contains(r.label, f.size@)
            &&& r.detail.contains("path: "@ + f.path@)
            &&& r.detail[0] == f.rel@
        }),
{
    let sorted = choices::files_sorted(v);
    listings::files_are_listed_in_order(v);
    assert(sorted.to_multiset().len() == sorted.len());
    assert(v.to_multiset().len() == v.len());
    let n = digits::dec(sorted.len());
    texts::wholes_hold_their_parts("Files — "@, dir, " ("@ + n + " items)"@);
    assert("Files — "@ + dir + (" ("@ + n + " items)"@) =~= choices::files_heading(
        dir,
        sorted.len(),
    ));
    if v.len() == 0 {
        let r = errands::files_shown(s, dir, v);
        assert(r.blocks.take(s.blocks.len() as int) =~= s.blocks);
    }
    let r = choices::file_item(f);
    assert(r.label.subrange(0, f.rel@.len() as int) =~= f.rel@);
    texts::wholes_hold_their_parts(f.rel@ + "  · "@, f.size@, Seq::empty());
    assert(f.rel@ + "  · "@ + f.size@ + Seq::<char>::empty() =~= r.label);
    assert(r.detail[2] == "path: "@ + f.path@);
}

/// The list of workspaces opens at its first row, with a remark on what to do
/// there where it was opened for that.
pub proof fn workspaces_are_listed(s: AppView, items: Seq<OverlayItemView>, why: Reason)
    requires
        s.stream is None,
    ensures
        ({
            let r = errands::workspaces_shown(s, items, why);
            &&& r.overlay matches Some(o) && o.kind == OverlayKind::Workspaces && o.items == items
                && o.sel == 0 && o.filter.len() == 0
            &&& why == Reason::Asked ==> r.blocks == s.blocks
            &&& why == Reason::Findings ==> live::adds_line(
                s,
                r,
                "  · "@ + "pick a workspace, then press ^F for its findings"@,
                Color::Cyan,
            )
            &&& why == Reason::Approvals ==> live::adds_line(
                s,
                r,
                "  · "@ + "pick a workspace, then press ^A for its approvals"@,
                Color::Cyan,
            )
        }),
{
    let r = errands::workspaces_shown(s, items, why);
    assert(r.blocks.take(s.blocks.len() as int) =~= s.blocks);
}

/// A workspace is called by its name, and deleted where it is no longer listed.
pub proof fn workspaces_are_called_by_name(v: Seq<Workspace>, id: Seq<char>, k: int)
    ensures
        0 <= k < v.len() && v[k].id@ == id && v[k].name@.len() > 0 && (forall|j: int|
            0 <= j < k ==> (#[trigger] v[j]).id@ != id) ==> listing::credited_name(v, id)
            == v[k].name@,
        (forall|j: int| 0 <= j < v.len() ==> (#[trigger] v[j]).id@ != id) ==> listing::credited_name(
            v,
            id,
        ) == "(deleted)"@,
{
    if 0 <= k < v.len() && v[k].id@ == id && (forall|j: int|
        0 <= j < k ==> (#[trigger] v[j]).id@ != id) {
        first_workspace(v, id, 0, k);
    }
    if forall|j: int| 0 <= j < v.len() ==> (#[trigger] v[j]).id@ != id {
        no_workspace(v, id, 0);
    }
}

proof fn first_workspace(v: Seq<Workspace>, id: Seq<char>, from: int, k: int)
    requires
        0 <= from <= k < v.len(),
        v[k].id@ == id,
        forall|j: int| from <= j < k ==> (#[trigger] v[j]).id@ != id,
    ensures
        choices::workspace_at(v, id, from) == Some(v[k]),
    decreases k - from,
{
    if from < k {
        first_workspace(v, id, from + 1, k);
    }
}

proof fn no_workspace(v: Seq<Workspace>, id: Seq<char>, from: int)
    requires
        0 <= from <= v.len(),
        forall|j: int| from <= j < v.len() ==> (#[trigger] v[j]).id@ != id,
    ensures
        choices::workspace_at(v, id, from) is None,
    decreases v.len() - from,
{
    if from < v.len() {
        no_workspace(v, id, from + 1);
    }
}

/// The tenants are listed one by one, the environment before what is kept, and a
/// remark stands below them; without any that is said.
pub proof fn tenants_are_listed_in_order(names: Seq<Seq<char>>, c: Config, env: Overrides, i: int)
    ensures
        names.len() == 0 ==> listing::tenants_text(names, c, env).len() == 1,
        names.len() > 0 ==> listing::tenants_text(names, c, env).len() == names.len() + 1,
        0 <= i < names.len() && c.profiles@.dom().contains(names[i]) ==> listing::tenants_text(
            names,
            c,
            env,
        )[i] == listing::tenant_text(
            names[i],
            config::overridden(c.profiles@[names[i]]@, env),
            c.current_profile@,
        ),
{
}

/// A profile that is not kept says nothing.
pub proof fn unknown_profiles_say_nothing(c: Config, name: Seq<char>)
    ensures
        c.profiles@.dom().contains(name) ==> config::profile_named(c, name)
            == c.profiles@[name]@,
        !c.profiles@.dom().contains(name) ==> {
            let p = config::profile_named(c, name);
            p.base_url.len() == 0 && p.org_id.len() == 0 && p.master_key.len() == 0
                && p.workspace_id is None && p.thread_id is None && !config::complete(p)
        },
{
}

/// The service is dialled at the host and port of its address; without an address
/// there is no host.
pub proof fn services_are_dialled_at_their_address(
    p: config::ProfileView,
    http: Seq<char>,
    u: weburl::UrlView,
)
    ensures
        config::origin_of(p) == Ok::<Seq<char>, Seq<char>>(http) && weburl::url_parts(http) == Ok::<
            weburl::UrlView,
            Seq<char>,
        >(u) ==> config::host_of(p) == u.host && (u.known_port matches Some(n) ==> config::port_of(p)
            == n) && (u.known_port is None ==> config::port_of(p) == 80),
        config::origin_of(p) is Err ==> config::host_of(p) is None && config::socket_base(p) is Err,
{
}

/// A download fails with nothing to sync where the service says that there are no
/// files, or that there is nothing there.
pub proof fn empty_workspaces_are_known(a: Seq<char>, b: Seq<char>)
    ensures
        listing::nothing_to_sync(a + "No files found to download"@ + b),
        listing::nothing_to_sync(a + "HTTP 404"@ + b),
{
    texts::wholes_hold_their_parts(a, "No files found to download"@, b);
    texts::wholes_hold_their_parts(a, "HTTP 404"@, b);
}

// ---- tabs, machines and packages -----------------------------------------------------------------

/// A tab that is taken was idle or is new, and is then busy; giving it back makes
/// it idle, and no other tab changes.
pub proof fn tabs_are_taken_and_given_back(busy: Seq<bool>, j: int)
    ensures
        ({
            let (i, v) = browser::acquired(busy);
            &&& 0 <= i < v.len() && v[i]
            &&& i < busy.len() ==> !busy[i] && v.len() == busy.len()
            &&& i == busy.len() ==> v.len() == busy.len() + 1 && forall|k: int|
                0 <= k < busy.len() ==> #[trigger] busy[k]
            &&& 0 <= j < busy.len() && j != i ==> v[j] == busy[j]
            &&& !browser::released(v, i)[i]
            &&& 0 <= j < busy.len() ==> browser::released(v, i)[j] == busy[j]
        }),
{
    first_idle(busy, 0);
}

proof fn first_idle(busy: Seq<bool>, i: int)
    requires
        0 <= i <= busy.len(),
    ensures
        match browser::idle_from(busy, i) {
            Some(k) => i <= k < busy.len() && !busy[k],
            None => forall|k: int| i <= k < busy.len() ==> #[trigger] busy[k],
        },
    decreases busy.len() - i,
{
    if i < busy.len() && busy[i] {
        first_idle(busy, i + 1);
    }
}

/// What is told of the machine is its folder, system, shell and user, how many
/// entries the folder has, and its workspace where there is one.
pub proof fn machines_are_described(m: Machine, w: String)
    ensures
        ({
            let v = local::machine_value(m);
            &&& says(v, "working_directory"@, m.directory@)
            &&& says(v, "platform"@, m.platform@)
            &&& says(v, "shell"@, m.shell@)
            &&& says(v, "user"@, m.user@)
            &&& holds(v, "entry_count"@, JsonView::Num(digits::dec(m.entries as nat)))
            &&& m.workspace == Some(w) ==> says(v, "workspace_id"@, w@)
        }),
{
    match local::machine_value(m) {
        JsonView::Obj(e) => {
            assert(e[0] == ("working_directory"@, JsonView::Str(m.directory@)));
            assert(e[1] == ("platform"@, JsonView::Str(m.platform@)));
            assert(e[2] == ("shell"@, JsonView::Str(m.shell@)));
            assert(e[3] == ("user"@, JsonView::Str(m.user@)));
            assert(e[4] == ("entry_count"@, JsonView::Num(digits::dec(m.entries as nat))));
            if m.workspace == Some(w) {
                assert(e[6] == ("workspace_id"@, JsonView::Str(w@)));
            }
        },
        _ => {},
    }
}

/// The packages of an ecosystem are counted one by one.
pub proof fn ecosystems_are_counted(v: Seq<DepView>, e: Seq<char>, n: int)
    requires
        0 < n <= v.len(),
    ensures
        packages::of_ecosystem(v, e, 0) == 0,
        v[n - 1].ecosystem == e ==> packages::of_ecosystem(v, e, n) == packages::of_ecosystem(
            v,
            e,
            n - 1,
        ) + 1,
        v[n - 1].ecosystem != e ==> packages::of_ecosystem(v, e, n) == packages::of_ecosystem(
            v,
            e,
            n - 1,
        ),
        packages::ecosystems(v).contains(v[n - 1].ecosystem),
{
    let all = v.map_values(|d: DepView| d.ecosystem);
    assert(all[n - 1] == v[n - 1].ecosystem);
    assert(all.contains(v[n - 1].ecosystem));
    crate::order::in_order_sorts(all);
}

/// The document of a workspace has a rule and a result for each of its findings.
pub proof fn workspace_documents_hold_every_finding(v: Seq<FindingView>, w: Seq<char>, k: int)
    requires
        0 <= k < v.len(),
    ensures
        exists|rules: Seq<JsonView>, found: Seq<JsonView>|
            sarif::workspace_document(v, w) == #[trigger] sarif::document(
                "Strobes Security Assessment"@,
                rules,
                found,
                "strobes/workspace/"@ + w,
            ) && rules.len() == v.len() && found.len() == v.len() && rules[k]
                == sarif::finding_rule(v[k]) && found[k] == sarif::finding_result(v[k]),
{
    let rules = v.map_values(|f: FindingView| sarif::finding_rule(f));
    let found = v.map_values(|f: FindingView| sarif::finding_result(f));
    assert(sarif::workspace_document(v, w) == sarif::document(
        "Strobes Security Assessment"@,
        rules,
        found,
        "strobes/workspace/"@ + w,
    ));
    assert(rules[k] == sarif::finding_rule(v[k]) && found[k] == sarif::finding_result(v[k]));
}

/// Links are gathered event by event, from none.
pub proof fn links_are_gathered_in_order(ev: Seq<markdown::EventView>, e: markdown::EventView)
    ensures
        markdown::links_after(Seq::empty()).found.len() == 0,
        markdown::links_after(Seq::empty()).url is None,
        markdown::links_after(ev.push(e)) == markdown::link_step(markdown::links_after(ev), e),
{
    assert(ev.push(e).drop_last() =~= ev);
}

/// The variables of a workflow are gone through one by one; asked for are those
/// that have no value, and no others.
pub proof fn variables_without_a_value_are_asked_for(
    e: Seq<(String, String)>,
    have: Map<Seq<char>, String>,
    n: int,
)
    requires
        0 < n <= e.len(),
    ensures
        workflow::steps_of(e, have).len() == e.len(),
        have.dom().contains(e[n - 1].0@) ==> (workflow::steps_of(e, have)[n - 1]
            == VarStepView::Given("  "@ + e[n - 1].0@ + " = "@ + have[e[n - 1].0@]@)
            && workflow::lacking(e, have, n) == workflow::lacking(e, have, n - 1)
            && workflow::asked(workflow::steps_of(e, have), n) == workflow::asked(
            workflow::steps_of(e, have),
            n - 1,
        )),
        !have.dom().contains(e[n - 1].0@) ==> (workflow::lacking(e, have, n) == workflow::lacking(
            e,
            have,
            n - 1,
        ).push(e[n - 1].0@) && workflow::asked(workflow::steps_of(e, have), n) == workflow::asked(
            workflow::steps_of(e, have),
            n - 1,
        ).push(e[n - 1].0@)),
{
}

/// A row of runs shows each column, at its width.
pub proof fn rows_of_runs_show_each_column(
    id: Seq<char>,
    name: Seq<char>,
    status: Seq<char>,
    done: Seq<char>,
    started: Seq<char>,
)
    ensures
        ({
            let x = remote::row_text(id, name, status, done, started);
            &&& text::starts_with(x, id)
            &&& text::contains(x, digits::pad_right(name, ' ', 26))
            &&& text::contains(x, digits::pad_right(status, ' ', 10))
            &&& text::contains(x, digits::pad_right(done, ' ', 6))
            &&& text::contains(x, started)
        }),
        text::byte_len(name) <= 26 ==> remote::column_name(name) == name,
{
    let x = remote::row_text(id, name, status, done, started);
    let a = digits::pad_right(id, ' ', 38);
    let b = digits::pad_right(name, ' ', 26);
    let c = digits::pad_right(status, ' ', 10);
    let d = digits::pad_right(done, ' ', 6);
    let t0 = a;
    let t1 = t0 + "  "@;
    let t2 = t1 + b;
    let t3 = t2 + "  "@;
    let t4 = t3 + c;
    let t5 = t4 + "  "@;
    let t6 = t5 + d;
    let t7 = t6 + "  "@;
    let t8 = t7 + started;
    assert(text::contains(t8, b)) by {
        texts::texts_hold_themselves(b);
        texts::longer_texts_hold_it(t1, b, b);
        texts::longer_texts_hold_it(t2, "  "@, b);
        texts::longer_texts_hold_it(t3, c, b);
        texts::longer_texts_hold_it(t4, "  "@, b);
        texts::longer_texts_hold_it(t5, d, b);
        texts::longer_texts_hold_it(t6, "  "@, b);
        texts::longer_texts_hold_it(t7, started, b);
    }
    assert(text::contains(t8, c)) by {
        texts::texts_hold_themselves(c);
        texts::longer_texts_hold_it(t3, c, c);
        texts::longer_texts_hold_it(t4, "  "@, c);
        texts::longer_texts_hold_it(t5, d, c);
        texts::longer_texts_hold_it(t6, "  "@, c);
        texts::longer_texts_hold_it(t7, started, c);
    }
    assert(text::contains(t8, d)) by {
        texts::texts_hold_themselves(d);
        texts::longer_texts_hold_it(t5, d, d);
        texts::longer_texts_hold_it(t6, "  "@, d);
        texts::longer_texts_hold_it(t7, started, d);
    }
    assert(text::contains(t8, started)) by {
        texts::texts_hold_themselves(started);
        texts::longer_texts_hold_it(t7, started, started);
    }
    assert(x == t8);
    assert(x.subrange(0, id.len() as int) =~= id);
}

} // verus!
