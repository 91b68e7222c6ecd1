//! Workflows that the backend runs, and the record of local runs.

use vstd::prelude::*;
use crate::api::{WorkflowState, WorkflowStatePhase, WorkflowTemplate, WorkflowTemplatePhase};
use crate::api::Workspace;
use crate::config;
use crate::digits;
use crate::editor;
use crate::netpolicy;
use crate::panels;
use crate::pieces;
use crate::table;
use crate::table::Table;
use crate::text;

verus! {

broadcast use {
    vstd::seq::group_seq_axioms,
    vstd::string::group_string_axioms,
    text::views_push,
    text::views_empty,
};

fn line(a: &str, b: &str, c: &str) -> (r: String)
    ensures
        r@ == a@ + b@ + c@,
{
    let mut s = a.to_owned();
    s.push_str(b);
    s.push_str(c);
    s
}

/// An answer that means yes.
pub fn confirmed(answer: &str) -> (r: bool)
    ensures
        r == netpolicy::eq_ignore_ascii_case(pieces::trim(answer@), "y"@),
{
    let t = pieces::str_trim(answer);
    netpolicy::str_eq_ignore_ascii_case(&t, "y")
}

// ---- templates --------------------------------------------------------------------------------

pub open spec fn template_head(t: WorkflowTemplate) -> Seq<char> {
    panels::named(t.icon@, "•"@) + " "@ + t.slug@ + "  ["@ + t.name@ + "]  "@ + digits::dec_int(
        t.phase_count as int,
    ) + " phases"@ + (if t.required_variables@.len() == 0 {
        Seq::empty()
    } else {
        "  requires: "@ + pieces::join(text::views(t.required_variables@), ", "@)
    })
}

pub open spec fn template_phase(p: WorkflowTemplatePhase) -> Seq<char> {
    "   "@ + digits::dec_int(p.order as int) + ": "@ + p.name@ + " ("@ + digits::dec_int(
        p.task_count as int,
    ) + " tasks)"@
}

/// The lines of a template, an empty one at their end.
pub open spec fn template_text(t: WorkflowTemplate) -> Seq<Seq<char>> {
    let head = Seq::<Seq<char>>::empty().push(template_head(t));
    let described = if t.description@.len() == 0 {
        head
    } else {
        head.push("   "@ + t.description@)
    };
    (described + Seq::new(t.phases@.len(), |i: int| template_phase(t.phases@[i]))).push(
        Seq::empty(),
    )
}

fn icon_of(t: &WorkflowTemplate) -> (r: String)
    ensures
        r@ == panels::named(t.icon@, "•"@),
{
    if t.icon.as_str().is_empty() {
        "•".to_owned()
    } else {
        t.icon.clone()
    }
}

/// The lines of a template, an empty one at their end.
pub fn template_lines(t: &WorkflowTemplate) -> (r: Vec<String>)
    ensures
        text::views(r@) == template_text(*t),
{
    let mut out: Vec<String> = Vec::new();
    let icon = icon_of(t);
    let mut s = line(&icon, " ", &t.slug);
    s.push_str("  [");
    s.push_str(&t.name);
    s.push_str("]  ");
    let n = digits::i64_to_string(t.phase_count);
    s.push_str(&n);
    s.push_str(" phases");
    if t.required_variables.len() > 0 {
        let mut q = "  requires: ".to_owned();
        let list = pieces::str_join(&t.required_variables, ", ");
        q.push_str(&list);
        s.push_str(&q);
    } else {
        assert(s@ + Seq::<char>::empty() =~= s@);
    }
    out.push(s);
    if !t.description.as_str().is_empty() {
        let mut d = "   ".to_owned();
        d.push_str(&t.description);
        out.push(d);
    }
    let ghost top = text::views(out@);
    let ghost want = Seq::new(t.phases@.len(), |i: int| template_phase(t.phases@[i]));
    let k: usize = t.phases.len();
    let mut i: usize = 0;
    assert(top + want.take(0) =~= top);
    while i < k
        invariant
            i <= k,
            k == t.phases@.len(),
            want == Seq::new(t.phases@.len(), |i: int| template_phase(t.phases@[i])),
            text::views(out@) == top + want.take(i as int),
        decreases k - i,
    {
        let p = &t.phases[i];
        let order = digits::i64_to_string(p.order);
        let mut s = line("   ", &order, ": ");
        s.push_str(&p.name);
        s.push_str(" (");
        let c = digits::i64_to_string(p.task_count);
        s.push_str(&c);
        s.push_str(" tasks)");
        out.push(s);
        assert(top + want.take(i + 1) =~= (top + want.take(i as int)).push(want[i as int]));
        i += 1;
    }
    assert(want.take(k as int) =~= want);
    let empty = "".to_owned();
    proof {
        reveal_strlit("");
        assert(empty@ =~= Seq::<char>::empty());
    }
    out.push(empty);
    out
}

/// The row of a template that can be attached.
pub fn template_label(t: &WorkflowTemplate) -> (r: String)
    ensures
        r@ == panels::named(t.icon@, "•"@) + " "@ + t.slug@ + "  — "@ + t.name@ + (
        if t.required_variables@.len() == 0 {
            Seq::empty()
        } else {
            "  ["@ + pieces::join(text::views(t.required_variables@), ", "@) + "]"@
        }),
{
    let icon = icon_of(t);
    let mut s = line(&icon, " ", &t.slug);
    s.push_str("  — ");
    s.push_str(&t.name);
    if t.required_variables.len() > 0 {
        let list = pieces::str_join(&t.required_variables, ", ");
        let q = line("  [", &list, "]");
        s.push_str(&q);
    } else {
        assert(s@ + Seq::<char>::empty() =~= s@);
    }
    s
}

/// The first template of a slug.
pub open spec fn template_at(v: Seq<WorkflowTemplate>, slug: Seq<char>, from: int) -> Option<
    WorkflowTemplate,
>
    decreases v.len() - from,
{
    if from < 0 || from >= v.len() {
        None
    } else if v[from].slug@ == slug {
        Some(v[from])
    } else {
        template_at(v, slug, from + 1)
    }
}

/// The variables that a template asks for; none where it is not known.
pub fn required_vars(v: &Vec<WorkflowTemplate>, slug: &str) -> (r: Vec<String>)
    ensures
        text::views(r@) == match template_at(v@, slug@, 0) {
            Some(t) => text::views(t.required_variables@),
            None => Seq::empty(),
        },
{
    let n: usize = v.len();
    let mut i: usize = 0;
    while i < n
        invariant
            i <= n,
            n == v@.len(),
            template_at(v@, slug@, 0) == template_at(v@, slug@, i as int),
        decreases n - i,
    {
        if text::str_eq(&v[i].slug, slug) {
            return text::clone_strings(&v[i].required_variables);
        }
        i += 1;
    }
    Vec::new()
}

/// The names among the first `n` that have no value.
pub open spec fn unset(v: Seq<Seq<char>>, have: Map<Seq<char>, String>, n: int) -> Seq<Seq<char>>
    decreases n,
{
    if n <= 0 {
        Seq::empty()
    } else if have.dom().contains(v[n - 1]) {
        unset(v, have, n - 1)
    } else {
        unset(v, have, n - 1).push(v[n - 1])
    }
}

/// The names that have no value, as they come.
pub fn unset_vars(wanted: &Vec<String>, have: &Table<String>) -> (r: Vec<String>)
    requires
        table::in_names_order(have.entries@),
    ensures
        text::views(r@) == unset(text::views(wanted@), have@, wanted@.len() as int),
{
    let ghost all = text::views(wanted@);
    let n: usize = wanted.len();
    let mut out: Vec<String> = Vec::new();
    let mut i: usize = 0;
    while i < n
        invariant
            i <= n,
            n == wanted@.len(),
            all == text::views(wanted@),
            table::in_names_order(have.entries@),
            text::views(out@) == unset(all, have@, i as int),
        decreases n - i,
    {
        assert(all[i as int] == wanted@[i as int]@);
        if have.get(&wanted[i]).is_none() {
            out.push(wanted[i].clone());
        }
        i += 1;
    }
    out
}

/// The value that was entered for a variable that has to have one.
pub fn required_value(name: &str, entered: &str) -> (r: Result<String, String>)
    ensures
        config::text_result(r) == if pieces::is_blank(entered@) {
            Err("variable '"@ + name@ + "' is required and cannot be empty"@)
        } else {
            Ok(pieces::trim(entered@))
        },
{
    let t = pieces::str_trim(entered);
    if t.as_str().is_empty() {
        Err(line("variable '", name, "' is required and cannot be empty"))
    } else {
        Ok(t)
    }
}

/// Only a custom template can be deleted.
pub fn check_deletable(slug: &str) -> (r: Result<(), String>)
    ensures
        match r {
            Ok(_) => text::starts_with(slug@, "custom:"@),
            Err(e) => !text::starts_with(slug@, "custom:"@) && e@
                == "only custom: templates can be deleted (got '"@ + slug@ + "')"@,
        },
{
    if text::str_starts_with(slug, "custom:") {
        Ok(())
    } else {
        Err(line("only custom: templates can be deleted (got '", slug, "')"))
    }
}

// ---- a workspace's workflow ------------------------------------------------------------------------

/// The row of a workspace that a workflow can run in.
pub fn workspace_row(w: &Workspace) -> (r: String)
    requires
        editor::can_cut(w.id@, 8),
    ensures
        r@ == editor::cut(w.id@, 8) + "…  "@ + w.name@,
{
    let short = editor::str_cut(&w.id, 8);
    line(&short, "…  ", &w.name)
}

pub open spec fn opt_line(v: Seq<Seq<char>>, label: Seq<char>, o: Option<String>) -> Seq<Seq<char>> {
    match o {
        Some(s) => v.push(label + s@),
        None => v,
    }
}

/// The line of a phase; an arrow marks the one that is going on.
pub open spec fn phase_text(p: WorkflowStatePhase, current: Option<String>) -> Seq<char> {
    "  "@ + digits::pad_left(p.status@, ' ', 12) + "  "@ + p.phase_key@ + "  "@ + p.phase_name@ + (
    if text::opt_view(current) == Some(p.phase_key@) {
        " ←"@
    } else {
        Seq::empty()
    })
}

/// The lines of a workflow's state.
pub open spec fn state_text(w: WorkflowState) -> Seq<Seq<char>> {
    let a = Seq::<Seq<char>>::empty().push("workflow  "@ + w.workflow_id@).push(
        "status    "@ + w.status@,
    );
    let b = opt_line(a, "template  "@, w.template_slug);
    let c = opt_line(b, "version   "@, w.template_version);
    let d = opt_line(c, "phase     "@, w.current_phase_key);
    let e = d.push(
        "tasks     "@ + digits::dec_int(w.completed_tasks as int) + "/"@ + digits::dec_int(
            w.total_tasks as int,
        ),
    );
    let f = opt_line(e, "started   "@, w.started_at);
    let g = opt_line(f, "finished  "@, w.completed_at);
    if w.phases@.len() == 0 {
        g
    } else {
        g.push("\nphases:"@) + Seq::new(
            w.phases@.len(),
            |i: int| phase_text(w.phases@[i], w.current_phase_key),
        )
    }
}

fn push_opt(out: &mut Vec<String>, label: &str, o: &Option<String>)
    ensures
        text::views(final(out)@) == opt_line(text::views(old(out)@), label@, *o),
{
    if let Some(s) = o {
        let mut t = label.to_owned();
        t.push_str(s);
        out.push(t);
    }
}

/// Whether a workflow of that status goes on no more.
pub fn has_ended(status: &str) -> (r: bool)
    ensures
        r == (status@ == "completed"@ || status@ == "failed"@ || status@ == "cancelled"@),
{
    text::str_eq(status, "completed") || text::str_eq(status, "failed") || text::str_eq(
        status,
        "cancelled",
    )
}

/// The lines of a workflow's state.
pub fn state_lines(w: &WorkflowState) -> (r: Vec<String>)
    ensures
        text::views(r@) == state_text(*w),
{
    let mut out: Vec<String> = Vec::new();
    let mut a = "workflow  ".to_owned();
    a.push_str(&w.workflow_id);
    out.push(a);
    let mut b = "status    ".to_owned();
    b.push_str(&w.status);
    out.push(b);
    push_opt(&mut out, "template  ", &w.template_slug);
    push_opt(&mut out, "version   ", &w.template_version);
    push_opt(&mut out, "phase     ", &w.current_phase_key);
    let done = digits::i64_to_string(w.completed_tasks);
    let mut t = line("tasks     ", &done, "/");
    let total = digits::i64_to_string(w.total_tasks);
    t.push_str(&total);
    out.push(t);
    push_opt(&mut out, "started   ", &w.started_at);
    push_opt(&mut out, "finished  ", &w.completed_at);
    let k: usize = w.phases.len();
    if k == 0 {
        return out;
    }
    out.push("\nphases:".to_owned());
    let ghost top = text::views(out@);
    let ghost want = Seq::new(
        w.phases@.len(),
        |i: int| phase_text(w.phases@[i], w.current_phase_key),
    );
    let mut i: usize = 0;
    assert(top + want.take(0) =~= top);
    while i < k
        invariant
            i <= k,
            k == w.phases@.len(),
            want == Seq::new(
                w.phases@.len(),
                |i: int| phase_text(w.phases@[i], w.current_phase_key),
            ),
            text::views(out@) == top + want.take(i as int),
        decreases k - i,
    {
        let p = &w.phases[i];
        let status = digits::str_pad_left(&p.status, ' ', 12);
        let mut s = line("  ", &status, "  ");
        s.push_str(&p.phase_key);
        s.push_str("  ");
        s.push_str(&p.phase_name);
        if text::opt_is(&w.current_phase_key, &p.phase_key) {
            s.push_str(" ←");
        } else {
            assert(s@ + Seq::<char>::empty() =~= s@);
        }
        out.push(s);
        assert(top + want.take(i + 1) =~= (top + want.take(i as int)).push(want[i as int]));
        i += 1;
    }
    assert(want.take(k as int) =~= want);
    out
}

/// What syncing a file to a workspace does.
pub enum Sync {
    /// There is no workflow yet.
    Create,
    /// The workflow in this state is changed.
    Edit { status: String },
    /// The workflow is running.
    Refuse(String),
}

/// What syncing a file to a workspace does: a workflow that is running is not
/// changed.
pub fn sync_plan(existing: &Option<WorkflowState>) -> (r: Sync)
    ensures
        match *existing {
            None => r is Create,
            Some(w) => if w.status@ == "running"@ {
                r matches Sync::Refuse(e) && e@ == "workflow "@ + w.workflow_id@
                    + " is currently running — cancel it first before syncing"@
            } else {
                r matches Sync::Edit { status } && status@ == w.status@
            },
        },
{
    match existing {
        None => Sync::Create,
        Some(w) => {
            if text::str_eq(&w.status, "running") {
                Sync::Refuse(
                    line(
                        "workflow ",
                        &w.workflow_id,
                        " is currently running — cancel it first before syncing",
                    ),
                )
            } else {
                Sync::Edit { status: w.status.clone() }
            }
        },
    }
}

// ---- the record of local runs -----------------------------------------------------------------------

/// A local run as its record says it.
pub struct RunRecord {
    pub id: String,
    pub workflow_name: String,
    pub status: String,
    pub done: usize,
    pub total: usize,
    pub started_at: String,
}

/// The name of a workflow in a column: what has more than 26 bytes is cut after
/// 25 of them.
pub open spec fn column_name(name: Seq<char>) -> Seq<char> {
    if text::byte_len(name) > 26 {
        editor::head_bytes(name, 25) + "…"@
    } else {
        name
    }
}

/// A text with a blank in place of the first `T`.
pub open spec fn first_t_blank(s: Seq<char>) -> Seq<char> {
    match pieces::index_of(s, 'T') {
        Some(k) => s.take(k) + " "@ + s.skip(k + 1),
        None => s,
    }
}

/// A time as it is shown: without its zone, to the second.
pub open spec fn shown_time(s: Seq<char>) -> Seq<char> {
    editor::cut(first_t_blank(pieces::trim_end_char(s, 'Z')), 19)
}

pub open spec fn row_text(
    id: Seq<char>,
    name: Seq<char>,
    status: Seq<char>,
    done: Seq<char>,
    started: Seq<char>,
) -> Seq<char> {
    digits::pad_right(id, ' ', 38) + "  "@ + digits::pad_right(name, ' ', 26) + "  "@
        + digits::pad_right(status, ' ', 10) + "  "@ + digits::pad_right(done, ' ', 6) + "  "@
        + started
}

fn row(id: &str, name: &str, status: &str, done: &str, started: &str) -> (r: String)
    ensures
        r@ == row_text(id@, name@, status@, done@, started@),
{
    let mut s = digits::str_pad_right(id, ' ', 38);
    s.push_str("  ");
    let a = digits::str_pad_right(name, ' ', 26);
    s.push_str(&a);
    s.push_str("  ");
    let b = digits::str_pad_right(status, ' ', 10);
    s.push_str(&b);
    s.push_str("  ");
    let c = digits::str_pad_right(done, ' ', 6);
    s.push_str(&c);
    s.push_str("  ");
    s.push_str(started);
    s
}

/// The heads of the columns, and the rule below them.
pub fn history_head() -> (r: (String, String))
    ensures
        r.0@ == "\n"@ + row_text("RUN ID"@, "WORKFLOW"@, "STATUS"@, "DONE"@, "STARTED"@),
        r.1@ == pieces::repeat("─"@, 96),
{
    let heads = row("RUN ID", "WORKFLOW", "STATUS", "DONE", "STARTED");
    let mut s = "\n".to_owned();
    s.push_str(&heads);
    (s, pieces::str_repeat("─", 96))
}

/// The row of a run. Where its name or its time is cut has to be between two
/// characters.
pub fn history_row(x: &RunRecord) -> (r: String)
    requires
        text::byte_len(x.workflow_name@) > 26 ==> editor::on_boundary(x.workflow_name@, 25),
        editor::can_cut(first_t_blank(pieces::trim_end_char(x.started_at@, 'Z')), 19),
    ensures
        r@ == row_text(
            x.id@,
            column_name(x.workflow_name@),
            x.status@,
            digits::dec(x.done as nat) + "/"@ + digits::dec(x.total as nat),
            shown_time(x.started_at@),
        ),
{
    let name = if text::str_byte_len(&x.workflow_name) > 26 {
        let mut h = editor::str_head_bytes(&x.workflow_name, 25);
        h.push_str("…");
        h
    } else {
        x.workflow_name.clone()
    };
    let time = pieces::str_trim_end_char(&x.started_at, 'Z');
    let v = text::chars_of(&time);
    let n: usize = v.len();
    let spaced = match pieces::chars_index_from(&v, 'T', 0) {
        Some(k) => {
            let mut a = pieces::str_take(&time, k);
            a.push_str(" ");
            let b = pieces::str_skip(&time, k + 1);
            a.push_str(&b);
            a
        },
        None => time,
    };
    let started = editor::str_cut(&spaced, 19);
    let a = digits::usize_to_string(x.done);
    let b = digits::usize_to_string(x.total);
    let done = line(&a, "/", &b);
    row(&x.id, &name, &x.status, &done, &started)
}

} // verus!
