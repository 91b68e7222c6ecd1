//! What a chat session fetches, and what it makes of the replies.

use vstd::prelude::*;
use crate::api::{Approval, Finding, HistMsg, Thread, Workspace};
use crate::app;
use crate::app::{App, OverlayKind};
use crate::blocks;
use crate::blocks::OverlayItem;
use crate::chat;
use crate::chat::Defer;
use crate::choices;
use crate::choices::LocalFile;
use crate::editor;
use crate::history;
use crate::json;
use crate::json::Json;
use crate::listing;
use crate::panels;
use crate::pulse;
use crate::pulse::AppEvent;
use crate::session;
use crate::text;

verus! {

broadcast use {
    vstd::seq::group_seq_axioms,
    vstd::string::group_string_axioms,
    text::views_push,
    text::views_empty,
};

/// Why the workspaces are listed: for their own sake, or because findings or
/// approvals were asked for and no workspace is bound.
#[derive(Clone, Copy, Debug, PartialEq, Eq, Structural)]
pub enum Reason {
    Asked,
    Findings,
    Approvals,
}

/// Something that is done outside the session before it goes on.
pub enum Errand {
    Nothing,
    Workspaces(Reason),
    Threads,
    Findings(String),
    Approvals(String),
    Files,
    OpenFiles,
    NewWorkspace,
    Bind(String),
    NewThread,
    Open(String),
}

pub enum ErrandView {
    Nothing,
    Workspaces(Reason),
    Threads,
    Findings(Seq<char>),
    Approvals(Seq<char>),
    Files,
    OpenFiles,
    NewWorkspace,
    Bind(Seq<char>),
    NewThread,
    Open(Seq<char>),
}

impl View for Errand {
    type V = ErrandView;

    open spec fn view(&self) -> ErrandView {
        match self {
            Errand::Nothing => ErrandView::Nothing,
            Errand::Workspaces(r) => ErrandView::Workspaces(*r),
            Errand::Threads => ErrandView::Threads,
            Errand::Findings(w) => ErrandView::Findings(w@),
            Errand::Approvals(w) => ErrandView::Approvals(w@),
            Errand::Files => ErrandView::Files,
            Errand::OpenFiles => ErrandView::OpenFiles,
            Errand::NewWorkspace => ErrandView::NewWorkspace,
            Errand::Bind(w) => ErrandView::Bind(w@),
            Errand::NewThread => ErrandView::NewThread,
            Errand::Open(t) => ErrandView::Open(t@),
        }
    }
}

/// The session with a list over it.
pub open spec fn shown(
    s: app::AppView,
    kind: OverlayKind,
    title: Seq<char>,
    items: Seq<blocks::OverlayItemView>,
) -> app::AppView {
    session::with_overlay(
        s,
        Some(
            blocks::OverlayView {
                kind,
                title,
                items,
                sel: 0,
                detail_open: false,
                dscroll: 0,
                filter: Seq::empty(),
            },
        ),
    )
}

/// The list of models.
pub open spec fn models_shown(s: app::AppView) -> app::AppView {
    shown(
        s,
        OverlayKind::Models,
        "Select AI model  (^P toggle)"@,
        choices::model_list(s.models, s.current_model),
    )
}

/// What a request comes to. Findings and approvals need a bound workspace:
/// without one the workspaces are listed first. The models are listed at once.
pub open spec fn begun(s: app::AppView, d: chat::DeferView, workspace: Option<Seq<char>>) -> (
    app::AppView,
    ErrandView,
) {
    match d {
        chat::DeferView::Workspaces => (s, ErrandView::Workspaces(Reason::Asked)),
        chat::DeferView::Threads => (s, ErrandView::Threads),
        chat::DeferView::Findings => (
            s,
            match workspace {
                Some(w) => ErrandView::Findings(w),
                None => ErrandView::Workspaces(Reason::Findings),
            },
        ),
        chat::DeferView::Approvals => (
            s,
            match workspace {
                Some(w) => ErrandView::Approvals(w),
                None => ErrandView::Workspaces(Reason::Approvals),
            },
        ),
        chat::DeferView::Files => (s, ErrandView::Files),
        chat::DeferView::OpenFiles => (s, ErrandView::OpenFiles),
        chat::DeferView::Models => (models_shown(s), ErrandView::Nothing),
        chat::DeferView::BindWorkspace(w) => (
            s,
            if w == panels::NEW_WORKSPACE@ {
                ErrandView::NewWorkspace
            } else {
                ErrandView::Bind(w)
            },
        ),
        chat::DeferView::SwitchThread(t) => (
            s,
            if t == panels::NEW_THREAD@ {
                ErrandView::NewThread
            } else {
                ErrandView::Open(t)
            },
        ),
    }
}

/// The session that shows an error.
pub open spec fn failed(s: app::AppView, error: Seq<char>, now: u64) -> app::AppView {
    app::after_event(s, pulse::EventView::Error(error), now)
}

/// The workspaces over the session; a notice says what to do with them where
/// something else was asked for.
pub open spec fn workspaces_shown(
    s: app::AppView,
    items: Seq<blocks::OverlayItemView>,
    why: Reason,
) -> app::AppView {
    let noted = match why {
        Reason::Asked => s,
        Reason::Findings => app::noticed(s, "pick a workspace, then press ^F for its findings"@),
        Reason::Approvals => app::noticed(s, "pick a workspace, then press ^A for its approvals"@),
    };
    shown(noted, OverlayKind::Workspaces, "Workspaces"@, items)
}

/// The threads over the session, a new one first.
pub open spec fn threads_shown(
    s: app::AppView,
    title: Seq<char>,
    ts: Seq<Thread>,
    current: Seq<char>,
    in_workspace: bool,
) -> app::AppView {
    shown(
        s,
        OverlayKind::Threads,
        title,
        Seq::empty().push(panels::new_thread_item(in_workspace)) + Seq::new(
            ts.len(),
            |i: int| panels::thread_item(ts[i], current),
        ),
    )
}

pub open spec fn threads_title(in_workspace: bool) -> Seq<char> {
    if in_workspace {
        "Threads (this workspace)"@
    } else {
        "Threads"@
    }
}

/// The files of the folder over the session, by their paths; a notice where
/// there are none.
pub open spec fn files_shown(s: app::AppView, dir: Seq<char>, files: Seq<LocalFile>) -> app::AppView {
    let sorted = choices::files_sorted(files);
    if sorted.len() == 0 {
        app::noticed(
            s,
            "no local workspace files yet ("@ + dir + ") — bind a workspace to sync"@,
        )
    } else {
        shown(
            s,
            OverlayKind::Files,
            choices::files_heading(dir, sorted.len()),
            Seq::new(sorted.len(), |i: int| choices::file_item(sorted[i])),
        )
    }
}

fn concat(a: &str, b: &str, c: &str) -> (r: String)
    ensures
        r@ == a@ + b@ + c@,
{
    let mut s = a.to_owned();
    s.push_str(b);
    s.push_str(c);
    s
}

impl App {
    /// Begins what a key asked for.
    pub fn begin(&mut self, d: Defer, workspace: &Option<String>) -> (r: Errand)
        ensures
            (final(self)@, r@) == begun(old(self)@, d@, text::opt_view(*workspace)),
    {
        match d {
            Defer::Workspaces => Errand::Workspaces(Reason::Asked),
            Defer::Threads => Errand::Threads,
            Defer::Findings => match workspace {
                Some(w) => Errand::Findings(w.clone()),
                None => Errand::Workspaces(Reason::Findings),
            },
            Defer::Approvals => match workspace {
                Some(w) => Errand::Approvals(w.clone()),
                None => Errand::Workspaces(Reason::Approvals),
            },
            Defer::Files => Errand::Files,
            Defer::OpenFiles => Errand::OpenFiles,
            Defer::Models => {
                let items = choices::model_items(&self.models, self.current_model);
                self.open_overlay(
                    OverlayKind::Models,
                    "Select AI model  (^P toggle)".to_owned(),
                    items,
                );
                Errand::Nothing
            },
            Defer::BindWorkspace(w) => if text::str_eq(&w, panels::NEW_WORKSPACE) {
                Errand::NewWorkspace
            } else {
                Errand::Bind(w)
            },
            Defer::SwitchThread(t) => if text::str_eq(&t, panels::NEW_THREAD) {
                Errand::NewThread
            } else {
                Errand::Open(t)
            },
        }
    }

    /// Shows an error of what was done outside; `what` says what failed.
    pub fn on_failure(&mut self, what: &str, error: &str, now: u64)
        ensures
            final(self)@ == failed(old(self)@, what@ + error@, now),
    {
        let mut e = what.to_owned();
        e.push_str(error);
        self.on_app_event(AppEvent::Error(e), now);
    }

    /// The workspaces came, or did not.
    pub fn on_workspaces(&mut self, reply: Result<Vec<OverlayItem>, String>, why: Reason, now: u64)
        ensures
            final(self)@ == match reply {
                Ok(items) => workspaces_shown(old(self)@, blocks::overlay_items(items@), why),
                Err(e) => failed(old(self)@, e@, now),
            },
    {
        match reply {
            Ok(items) => {
                match why {
                    Reason::Asked => {},
                    Reason::Findings => {
                        self.notice("pick a workspace, then press ^F for its findings");
                    },
                    Reason::Approvals => {
                        self.notice("pick a workspace, then press ^A for its approvals");
                    },
                }
                self.open_overlay(OverlayKind::Workspaces, "Workspaces".to_owned(), items);
            },
            Err(e) => self.on_app_event(AppEvent::Error(e), now),
        }
    }

    /// The threads came, or did not; `current` is the one that the session
    /// began with.
    pub fn on_threads(
        &mut self,
        reply: Result<Vec<Thread>, String>,
        current: &str,
        in_workspace: bool,
        now: u64,
    )
        ensures
            final(self)@ == match reply {
                Ok(ts) => threads_shown(
                    old(self)@,
                    threads_title(in_workspace),
                    ts@,
                    current@,
                    in_workspace,
                ),
                Err(e) => failed(old(self)@, e@, now),
            },
    {
        match reply {
            Ok(ts) => {
                let title = if in_workspace {
                    "Threads (this workspace)"
                } else {
                    "Threads"
                };
                let items = panels::thread_items(&ts, current, in_workspace);
                self.open_overlay(OverlayKind::Threads, title.to_owned(), items);
            },
            Err(e) => self.on_app_event(AppEvent::Error(e), now),
        }
    }

    /// The findings of the bound workspace came, or did not.
    pub fn on_findings(&mut self, reply: Result<Vec<Finding>, String>, now: u64)
        ensures
            final(self)@ == match reply {
                Ok(fs) => shown(
                    old(self)@,
                    OverlayKind::Findings,
                    "Findings"@,
                    Seq::new(fs@.len(), |i: int| panels::finding_item(fs@[i])),
                ),
                Err(e) => failed(old(self)@, e@, now),
            },
    {
        match reply {
            Ok(fs) => {
                let items = panels::finding_items(&fs);
                self.open_overlay(OverlayKind::Findings, "Findings".to_owned(), items);
            },
            Err(e) => self.on_app_event(AppEvent::Error(e), now),
        }
    }

    /// The approvals of the bound workspace came, or did not.
    pub fn on_approvals(&mut self, reply: Result<Vec<Approval>, String>, now: u64)
        ensures
            final(self)@ == match reply {
                Ok(aps) => shown(
                    old(self)@,
                    OverlayKind::Approvals,
                    "Approvals"@,
                    Seq::new(aps@.len(), |i: int| panels::approval_item(aps@[i])),
                ),
                Err(e) => failed(old(self)@, e@, now),
            },
    {
        match reply {
            Ok(aps) => {
                let items = panels::approval_items(&aps);
                self.open_overlay(OverlayKind::Approvals, "Approvals".to_owned(), items);
            },
            Err(e) => self.on_app_event(AppEvent::Error(e), now),
        }
    }

    /// The files of the workspace's folder.
    pub fn on_files(&mut self, dir: &str, files: Vec<LocalFile>)
        ensures
            final(self)@ == files_shown(old(self)@, dir@, files@),
    {
        let ghost sorted = choices::files_sorted(files@);
        let items = choices::file_items(files);
        assert(items@.len() == blocks::overlay_items(items@).len());
        if items.len() == 0 {
            let t = concat(
                "no local workspace files yet (",
                dir,
                ") — bind a workspace to sync",
            );
            self.notice(&t);
        } else {
            let title = choices::files_title(dir, items.len());
            self.open_overlay(OverlayKind::Files, title, items);
        }
    }

    /// The folder was opened in the file manager, or was not.
    pub fn on_folder(&mut self, dir: &str, reply: Result<(), String>, now: u64)
        ensures
            final(self)@ == match reply {
                Ok(_) => app::noticed(old(self)@, "opened "@ + dir@ + " in your file manager"@),
                Err(e) => failed(old(self)@, "open failed: "@ + e@, now),
            },
    {
        match reply {
            Ok(_) => {
                let t = concat("opened ", dir, " in your file manager");
                self.notice(&t);
            },
            Err(e) => self.on_failure("open failed: ", &e, now),
        }
    }

    /// The transcript was copied, or was not.
    pub fn on_copied(&mut self, reply: Result<(), String>, now: u64)
        ensures
            final(self)@ == match reply {
                Ok(_) => app::noticed(old(self)@, "copied transcript to clipboard"@),
                Err(e) => failed(old(self)@, "copy failed: "@ + e@, now),
            },
    {
        match reply {
            Ok(_) => self.notice("copied transcript to clipboard"),
            Err(e) => self.on_failure("copy failed: ", &e, now),
        }
    }
}

// ---- uploads ------------------------------------------------------------------------------

/// Where the files went, or why they did not: one reply for each.
pub open spec fn uploads_told(
    s: app::AppView,
    v: Seq<Result<String, String>>,
    now: u64,
) -> app::AppView
    decreases v.len(),
{
    if v.len() == 0 {
        s
    } else {
        let before = uploads_told(s, v.drop_last(), now);
        match v.last() {
            Ok(dest) => app::noticed(before, "⬆ uploaded "@ + dest@),
            Err(e) => failed(before, "upload failed: "@ + e@, now),
        }
    }
}

/// The number of files that went up.
pub open spec fn arrived(v: Seq<Result<String, String>>) -> nat
    decreases v.len(),
{
    if v.len() == 0 {
        0
    } else {
        arrived(v.drop_last()) + (if v.last() is Ok {
            1nat
        } else {
            0
        })
    }
}

proof fn no_more_arrive(v: Seq<Result<String, String>>)
    ensures
        arrived(v) <= v.len(),
    decreases v.len(),
{
    if v.len() > 0 {
        no_more_arrive(v.drop_last());
    }
}

/// The session after dropped files were uploaded. `root` is the folder on this
/// machine that got the first copy.
pub open spec fn uploaded(
    s: app::AppView,
    v: Seq<Result<String, String>>,
    root: Option<Seq<char>>,
    now: u64,
) -> app::AppView {
    let t = uploads_told(s, v, now);
    if arrived(v) == 0 {
        t
    } else {
        app::noticed(t, listing::dropped_text(arrived(v), root))
    }
}

impl App {
    /// Dropped files were uploaded, each of them with a reply of its own.
    pub fn on_uploads(&mut self, v: &Vec<Result<String, String>>, root: &Option<String>, now: u64)
        ensures
            final(self)@ == uploaded(old(self)@, v@, text::opt_view(*root), now),
    {
        let ghost begun = self@;
        let n: usize = v.len();
        let mut ok: usize = 0;
        let mut i: usize = 0;
        while i < n
            invariant
                i <= n,
                n == v@.len(),
                ok <= i,
                ok == arrived(v@.take(i as int)),
                self@ == uploads_told(begun, v@.take(i as int), now),
            decreases n - i,
        {
            assert(v@.take(i + 1).drop_last() =~= v@.take(i as int));
            assert(v@.take(i + 1).last() == v@[i as int]);
            match &v[i] {
                Ok(dest) => {
                    let mut t = "⬆ uploaded ".to_owned();
                    t.push_str(dest);
                    self.notice(&t);
                    ok += 1;
                },
                Err(e) => self.on_failure("upload failed: ", e, now),
            }
            i += 1;
        }
        assert(v@.take(n as int) =~= v@);
        if ok > 0 {
            let t = listing::dropped_notice(ok, root);
            self.notice(&t);
        }
    }
}

// ---- workspaces and threads ---------------------------------------------------------------

/// The session that is bound to a workspace: its name where the list has it.
pub open spec fn bound(s: app::AppView, id: Seq<char>, ws: Option<Seq<Workspace>>) -> app::AppView {
    let t = app::AppView { has_workspace: true, ..s };
    let named = match ws {
        Some(v) => match choices::workspace_at(v, id, 0) {
            Some(w) => with_name(t, w.name@),
            None => t,
        },
        None => t,
    };
    app::noticed(named, listing::bound_text(id))
}

/// The session that shows that name; an empty one is not shown.
pub open spec fn with_name(s: app::AppView, name: Seq<char>) -> app::AppView {
    app::AppView {
        workspace_name: if name.len() == 0 {
            None
        } else {
            Some(name)
        },
        ..s
    }
}

/// What is fetched of a thread when it is opened. What could not be had is
/// left out; the messages stand in for events that did not come.
pub struct ThreadData {
    pub tokens: Option<i64>,
    pub events: Option<Vec<Json>>,
    pub messages: Option<Vec<HistMsg>>,
    pub run_status: Option<String>,
    pub threads: Option<Vec<Thread>>,
}

/// There are events to begin with.
pub open spec fn has_events(d: ThreadData) -> bool {
    d.events matches Some(ev) && ev@.len() > 0
}

/// The session with an earlier conversation in it.
pub open spec fn remembering(s: app::AppView, d: ThreadData, now: u64) -> app::AppView {
    if has_events(d) {
        history::with_events(s, json::values(d.events->0@), now)
    } else {
        match d.messages {
            Some(m) => history::with_messages(s, history::authored(m@), now),
            None => s,
        }
    }
}

/// The session with all that is known of its thread.
pub open spec fn thread_loaded(s: app::AppView, id: Seq<char>, d: ThreadData, now: u64) -> app::AppView {
    let paid = match d.tokens {
        Some(n) => app::AppView { thread_tokens: n, ..s },
        None => s,
    };
    let told = remembering(paid, d, now);
    let noted = match d.run_status {
        Some(st) => history::run_noted(told, st@),
        None => told,
    };
    match d.threads {
        Some(ts) => match choices::thread_at(ts@, id, 0) {
            Some(t) => if t.title@.len() == 0 {
                noted
            } else {
                app::AppView { title: t.title@, ..noted }
            },
            None => noted,
        },
        None => noted,
    }
}

impl App {
    /// A workspace was bound; `ws` is the list of workspaces, where it came.
    pub fn on_bound(&mut self, id: &str, ws: &Option<Vec<Workspace>>)
        requires
            editor::can_cut(id@, 8),
        ensures
            final(self)@ == bound(
                old(self)@,
                id@,
                match *ws {
                    Some(v) => Some(v@),
                    None => None,
                },
            ),
    {
        self.has_workspace = true;
        if let Some(v) = ws {
            if let Some(name) = choices::name_of_workspace(v, id) {
                self.set_workspace_name(name);
            }
        }
        let t = listing::bound_notice(id);
        self.notice(&t);
    }

    /// The threads of a workspace that was just bound, where they came.
    pub fn offer_threads(&mut self, ts: &Option<Vec<Thread>>, current: &str)
        ensures
            final(self)@ == match *ts {
                Some(v) => threads_shown(
                    old(self)@,
                    "New chat or existing thread"@,
                    v@,
                    current@,
                    true,
                ),
                None => session::with_overlay(old(self)@, None),
            },
    {
        match ts {
            Some(v) => {
                let items = panels::thread_items(v, current, true);
                self.open_overlay(
                    OverlayKind::Threads,
                    "New chat or existing thread".to_owned(),
                    items,
                );
            },
            None => self.close_overlay(),
        }
    }

    /// A workspace was created; its setup chat is opened next.
    pub fn on_created(&mut self, name: &str)
        ensures
            final(self)@ == app::noticed(
                with_name(app::AppView { has_workspace: true, ..old(self)@ }, name@),
                "✔ created workspace "@ + name@ + " — opening setup chat…"@,
            ),
    {
        self.has_workspace = true;
        self.set_workspace_name(name.to_owned());
        let t = concat("✔ created workspace ", name, " — opening setup chat…");
        self.notice(&t);
    }

    /// Takes all that is known of thread `id`.
    pub fn load_thread(&mut self, id: &str, d: ThreadData, now: u64)
        ensures
            final(self)@ == thread_loaded(old(self)@, id@, d, now),
    {
        if let Some(n) = d.tokens {
            self.set_thread_credits(n);
        }
        let mut pending: Option<Vec<HistMsg>> = d.messages;
        match d.events {
            Some(ev) => {
                if ev.len() > 0 {
                    self.seed_history_events(ev, now);
                    pending = None;
                }
            },
            None => {},
        }
        if let Some(m) = pending {
            self.seed_history(m, now);
        }
        if let Some(st) = d.run_status {
            self.note_active_run(&st);
        }
        if let Some(ts) = d.threads {
            if let Some(title) = choices::title_of_thread(&ts, id) {
                self.set_title(title);
            }
        }
    }
}

// ---- laws -----------------------------------------------------------------------------------

/// Findings and approvals are only fetched of a workspace that is bound, and
/// without one nothing changes until the workspaces are listed.
pub proof fn findings_are_of_the_bound_workspace(
    s: app::AppView,
    d: chat::DeferView,
    workspace: Option<Seq<char>>,
    w: Seq<char>,
)
    requires
        d is Findings || d is Approvals,
    ensures
        begun(s, d, workspace).1 == ErrandView::Findings(w) || begun(s, d, workspace).1
            == ErrandView::Approvals(w) ==> workspace == Some(w),
        workspace is None ==> begun(s, d, workspace).1 is Workspaces,
        begun(s, d, workspace).0 == s,
{
}

/// The message that is being written, and the lists over the session, stay.
pub open spec fn same_writing(s: app::AppView, t: app::AppView) -> bool {
    t.input == s.input && t.input_cursor == s.input_cursor && t.overlay == s.overlay && t.pending
        == s.pending
}

proof fn task_event_keeps_the_writing(s: app::AppView, e: json::JsonView, etype: Seq<char>)
    ensures
        same_writing(s, history::task_seeded(s, e, etype)),
{
}

proof fn event_keeps_the_writing(s: app::AppView, e: json::JsonView, now: u64)
    ensures
        same_writing(s, history::event_seeded(s, e, now)),
{
    assert(same_writing(s, app::flushed(s)));
    task_event_keeps_the_writing(s, e, json::text_field(e, "type"@));
}

proof fn events_keep_the_writing(s: app::AppView, ev: Seq<json::JsonView>, now: u64)
    ensures
        same_writing(s, history::events_seeded(s, ev, now)),
    decreases ev.len(),
{
    if ev.len() > 0 {
        events_keep_the_writing(s, ev.drop_last(), now);
        event_keeps_the_writing(history::events_seeded(s, ev.drop_last(), now), ev.last(), now);
    }
}

proof fn messages_keep_the_writing(s: app::AppView, m: Seq<(Seq<char>, Seq<char>)>, now: u64)
    ensures
        same_writing(s, history::messages_seeded(s, m, now)),
    decreases m.len(),
{
    if m.len() > 0 {
        messages_keep_the_writing(s, m.drop_last(), now);
    }
}

proof fn rules_keep_the_writing(s: app::AppView, t: app::AppView)
    requires
        same_writing(app::ruled(s, "history"@), t),
    ensures
        same_writing(s, history::closed_by_live(t)),
{
}

#[verifier::rlimit(40)]
proof fn remembering_keeps_the_writing(s: app::AppView, d: ThreadData, now: u64)
    ensures
        same_writing(s, remembering(s, d, now)),
{
    let begun = app::ruled(s, "history"@);
    if has_events(d) {
        let ev = json::values(d.events->0@);
        events_keep_the_writing(begun, ev, now);
        rules_keep_the_writing(s, history::events_seeded(begun, ev, now));
    } else if let Some(m) = d.messages {
        let told = history::authored(m@);
        messages_keep_the_writing(begun, told, now);
        rules_keep_the_writing(s, history::messages_seeded(begun, told, now));
    }
}

proof fn noting_keeps_the_writing(s: app::AppView, status: Seq<char>)
    ensures
        same_writing(s, history::run_noted(s, status)),
{
}

/// Opening a thread touches neither the message that is being written, nor a
/// form, nor the lists over the session.
pub proof fn loading_keeps_the_writing(s: app::AppView, id: Seq<char>, d: ThreadData, now: u64)
    ensures
        same_writing(s, thread_loaded(s, id, d, now)),
{
    let paid = match d.tokens {
        Some(n) => app::AppView { thread_tokens: n, ..s },
        None => s,
    };
    remembering_keeps_the_writing(paid, d, now);
    let told = remembering(paid, d, now);
    if let Some(st) = d.run_status {
        noting_keeps_the_writing(told, st@);
    }
}

} // verus!
