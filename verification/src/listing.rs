//! The lines that the listing commands print.

use vstd::prelude::*;
use crate::api::{Finding, Thread, Workspace};
use crate::choices;
use crate::cli;
use crate::config;
use crate::config::{Config, Overrides, Profile};
use crate::digits;
use crate::editor;
use crate::ip;
use crate::ip::IpAddr;
use crate::panels;
use crate::pieces;
use crate::session;
use crate::text;

verus! {

broadcast use {
    vstd::seq::group_seq_axioms,
    vstd::string::group_string_axioms,
    text::views_push,
    text::views_empty,
};

// ---- tenants -----------------------------------------------------------------------------------

/// The line of a tenant: a star where it is the default, its name, its
/// organisation and where it is reached.
pub open spec fn tenant_text(name: Seq<char>, p: config::ProfileView, default: Seq<char>) -> Seq<
    char,
> {
    (if name == default {
        "★"@
    } else {
        " "@
    }) + " "@ + name + "\t"@ + p.org_id + "\t"@ + p.base_url
}

/// The lines of a list of tenants.
pub open spec fn tenants_text(names: Seq<Seq<char>>, c: Config, env: Overrides) -> Seq<Seq<char>> {
    if names.len() == 0 {
        Seq::empty().push("no tenants configured — run `strobes --tenant <name> login`"@)
    } else {
        Seq::new(
            names.len(),
            |i: int|
                tenant_text(
                    names[i],
                    config::overridden(config::profile_named(c, names[i]), env),
                    c.current_profile@,
                ),
        ).push("\n★ = default tenant. Override per-run with `--tenant <name>`."@)
    }
}

/// The lines of a list of tenants.
pub fn tenant_lines(names: &Vec<String>, cfg: &Config, env: &Overrides) -> (r: Vec<String>)
    requires
        config::well_formed(*cfg),
    ensures
        text::views(r@) == tenants_text(text::views(names@), *cfg, *env),
{
    let mut out: Vec<String> = Vec::new();
    let n: usize = names.len();
    if n == 0 {
        out.push("no tenants configured — run `strobes --tenant <name> login`".to_owned());
        return out;
    }
    let ghost all = text::views(names@);
    let ghost want = Seq::new(
        all.len(),
        |i: int|
            tenant_text(
                all[i],
                config::overridden(config::profile_named(*cfg, all[i]), *env),
                cfg.current_profile@,
            ),
    );
    let mut i: usize = 0;
    assert(want.take(0) =~= Seq::empty());
    while i < n
        invariant
            i <= n,
            n == names@.len(),
            all == text::views(names@),
            config::well_formed(*cfg),
            want == Seq::new(
                all.len(),
                |i: int|
                    tenant_text(
                        all[i],
                        config::overridden(config::profile_named(*cfg, all[i]), *env),
                        cfg.current_profile@,
                    ),
            ),
            text::views(out@) == want.take(i as int),
        decreases n - i,
    {
        assert(all[i as int] == names@[i as int]@);
        let p = cfg.profile_for(&names[i], env);
        let mut s = if text::str_eq(&names[i], &cfg.current_profile) {
            "★".to_owned()
        } else {
            " ".to_owned()
        };
        s.push_str(" ");
        s.push_str(&names[i]);
        s.push_str("\t");
        s.push_str(&p.org_id);
        s.push_str("\t");
        s.push_str(&p.base_url);
        out.push(s);
        assert(want.take(i + 1) =~= want.take(i as int).push(want[i as int]));
        i += 1;
    }
    assert(want.take(want.len() as int) =~= want);
    out.push("\n★ = default tenant. Override per-run with `--tenant <name>`.".to_owned());
    out
}

// ---- the status ----------------------------------------------------------------------------------

pub open spec fn status_text(
    p: config::ProfileView,
    direct: Option<(Seq<char>, IpAddr)>,
) -> Seq<Seq<char>> {
    let top = Seq::<Seq<char>>::empty().push(
        "base_url    "@ + panels::named(p.base_url, "(unset)"@),
    ).push("org_id      "@ + panels::named(p.org_id, "(unset)"@)).push(
        "master_key  "@ + config::redacted(p.master_key),
    ).push("deployment  "@ + p.deployment);
    let dialled = match direct {
        Some((host, a)) => top.push(
            "resolve     "@ + host + " → "@ + ip::ip_text(a) + " (DNS bypass)"@,
        ),
        None => top,
    };
    dialled.push("workspace   "@ + text::text_or(p.workspace_id, "(none)"@)).push(
        "thread      "@ + text::text_or(p.thread_id, "(none)"@),
    )
}

fn labelled(label: &str, value: &str) -> (r: String)
    ensures
        r@ == label@ + value@,
{
    let mut s = label.to_owned();
    s.push_str(value);
    s
}

fn or_unset(s: &str) -> (r: &str)
    ensures
        r@ == panels::named(s@, "(unset)"@),
{
    if s.is_empty() {
        "(unset)"
    } else {
        s
    }
}

/// The lines of the status: the profile, its key only in part. `direct` is the
/// host and the address that is dialled for it.
pub fn status_lines(p: &Profile, direct: &Option<(String, IpAddr)>) -> (r: Vec<String>)
    requires
        cli::can_redact(p@.master_key),
    ensures
        text::views(r@) == status_text(
            p@,
            match direct {
                Some((h, a)) => Some((h@, *a)),
                None => None,
            },
        ),
{
    let mut out: Vec<String> = Vec::new();
    out.push(labelled("base_url    ", or_unset(&p.base_url)));
    out.push(labelled("org_id      ", or_unset(&p.org_id)));
    let key = config::redact(&p.master_key);
    out.push(labelled("master_key  ", &key));
    out.push(labelled("deployment  ", &p.deployment));
    if let Some((h, a)) = direct {
        let mut s = labelled("resolve     ", h);
        s.push_str(" → ");
        let t = a.to_text();
        s.push_str(&t);
        s.push_str(" (DNS bypass)");
        out.push(s);
    }
    let w = text::opt_or(&p.workspace_id, "(none)");
    out.push(labelled("workspace   ", &w));
    let t = text::opt_or(&p.thread_id, "(none)");
    out.push(labelled("thread      ", &t));
    out
}

/// The line on the newest release.
pub fn release_line(latest: &Option<String>, current: &str) -> (r: String)
    ensures
        r@ == match text::opt_view(*latest) {
            Some(v) if cli::newer(v, current@) => "⬆ update available: v"@ + v + " (current v"@
                + current@ + ") — run `strobes update`"@,
            _ => "✔ up to date (v"@ + current@ + ")"@,
        },
{
    if let Some(v) = latest {
        if cli::version_is_newer(v, current) {
            let mut s = labelled("⬆ update available: v", v);
            s.push_str(" (current v");
            s.push_str(current);
            s.push_str(") — run `strobes update`");
            return s;
        }
    }
    let mut s = labelled("✔ up to date (v", current);
    s.push_str(")");
    s
}

// ---- credits -------------------------------------------------------------------------------------

/// What a sum of credits is of: the narrowest of what was asked for.
pub open spec fn scope_text(workspace: Option<Seq<char>>, thread: Option<Seq<char>>) -> Seq<char> {
    match (workspace, thread) {
        (_, Some(t)) => "thread "@ + editor::cut(t, 8),
        (Some(w), None) => "workspace "@ + editor::cut(w, 8),
        (None, None) => "organization"@,
    }
}

/// The line of a sum of credits. The credits have three decimals, the tokens
/// are shortened.
pub fn credits_line(
    workspace: &Option<String>,
    thread: &Option<String>,
    credits: &str,
    tokens: &str,
    runs: i64,
) -> (r: String)
    requires
        text::opt_view(*workspace) matches Some(w) ==> editor::can_cut(w, 8),
        text::opt_view(*thread) matches Some(t) ==> editor::can_cut(t, 8),
    ensures
        r@ == "◈ "@ + scope_text(text::opt_view(*workspace), text::opt_view(*thread)) + ":  "@
            + credits@ + " credits · "@ + tokens@ + " tokens · "@ + digits::dec_int(runs as int)
            + " runs"@,
{
    let scope = match thread {
        Some(t) => {
            let short = editor::str_cut(t, 8);
            labelled("thread ", &short)
        },
        None => match workspace {
            Some(w) => {
                let short = editor::str_cut(w, 8);
                labelled("workspace ", &short)
            },
            None => "organization".to_owned(),
        },
    };
    let mut s = labelled("◈ ", &scope);
    s.push_str(":  ");
    s.push_str(credits);
    s.push_str(" credits · ");
    s.push_str(tokens);
    s.push_str(" tokens · ");
    let n = digits::i64_to_string(runs);
    s.push_str(&n);
    s.push_str(" runs");
    s
}

/// The name of a workspace in a list of credits.
pub open spec fn credited_name(ws: Seq<Workspace>, id: Seq<char>) -> Seq<char> {
    match choices::workspace_at(ws, id, 0) {
        Some(w) => panels::named(w.name@, "(unnamed)"@),
        None => "(deleted)"@,
    }
}

/// The line of a workspace's credits, in columns.
pub fn credits_row(
    ws: &Vec<Workspace>,
    id: &str,
    credits: &str,
    tokens: &str,
    runs: i64,
) -> (r: String)
    ensures
        r@ == "  "@ + digits::pad_left(credits@, ' ', 8) + " cr · "@ + digits::pad_left(
            tokens@,
            ' ',
            7,
        ) + " tok · "@ + digits::pad_left(digits::dec_int(runs as int), ' ', 3) + " runs   "@
            + credited_name(ws@, id@),
{
    let name = match choices::name_of_workspace(ws, id) {
        Some(n) => {
            if n.as_str().is_empty() {
                "(unnamed)".to_owned()
            } else {
                n
            }
        },
        None => "(deleted)".to_owned(),
    };
    let c = digits::str_pad_left(credits, ' ', 8);
    let mut s = labelled("  ", &c);
    s.push_str(" cr · ");
    let t = digits::str_pad_left(tokens, ' ', 7);
    s.push_str(&t);
    s.push_str(" tok · ");
    let d = digits::i64_to_string(runs);
    let n = digits::str_pad_left(&d, ' ', 3);
    s.push_str(&n);
    s.push_str(" runs   ");
    s.push_str(&name);
    s
}

// ---- workspaces, threads and findings --------------------------------------------------------------

/// The line of a workspace. The credits have two decimals.
pub fn workspace_line(
    w: &Workspace,
    bound: &Option<String>,
    threads: Option<usize>,
    credits: &str,
) -> (r: String)
    ensures
        r@ == w.id@ + "  "@ + w.name@ + (if text::opt_view(*bound) == Some(w.id@) {
            " ●"@
        } else {
            Seq::empty()
        }) + "  ["@ + w.status@ + "]  "@ + panels::threads_text(threads) + "  · ◈ "@ + credits@
            + " cr"@,
{
    let mut s = w.id.clone();
    s.push_str("  ");
    s.push_str(&w.name);
    if text::opt_is(bound, &w.id) {
        s.push_str(" ●");
    } else {
        assert(s@ + Seq::<char>::empty() =~= s@);
    }
    s.push_str("  [");
    s.push_str(&w.status);
    s.push_str("]  ");
    let count = match threads {
        Some(k) => {
            let mut t = digits::usize_to_string(k);
            t.push_str(" threads");
            t
        },
        None => "? threads".to_owned(),
    };
    s.push_str(&count);
    s.push_str("  · ◈ ");
    s.push_str(credits);
    s.push_str(" cr");
    s
}

/// The line of a thread.
pub fn thread_line(t: &Thread) -> (r: String)
    ensures
        r@ == t.id@ + "  "@ + panels::named(t.title@, "(untitled)"@) + "  ["@ + t.status@ + "]  "@
            + t.last_message@,
{
    let mut s = t.id.clone();
    s.push_str("  ");
    if t.title.as_str().is_empty() {
        s.push_str("(untitled)");
    } else {
        s.push_str(&t.title);
    }
    s.push_str("  [");
    s.push_str(&t.status);
    s.push_str("]  ");
    s.push_str(&t.last_message);
    s
}

/// The line of a finding. The score has one decimal.
pub open spec fn finding_text(f: Finding, score: Option<Seq<char>>) -> Seq<char> {
    "  ["@ + f.severity_label@ + "] "@ + f.title@ + (match score {
        Some(c) => " CVSS:"@ + c,
        None => Seq::empty(),
    }) + " · "@ + f.state_label@
}

/// The lines of a workspace's findings.
pub open spec fn findings_text(
    fs: Seq<Finding>,
    scores: Seq<Option<String>>,
    workspace: Seq<char>,
) -> Seq<Seq<char>> {
    if fs.len() == 0 {
        Seq::empty().push("(no findings in workspace "@ + editor::cut(workspace, 8) + "…)"@)
    } else {
        Seq::<Seq<char>>::empty().push(
            digits::dec(fs.len()) + " finding(s) in workspace "@ + editor::cut(workspace, 8)
                + "…:"@,
        ) + Seq::new(fs.len(), |i: int| finding_text(fs[i], text::opt_view(scores[i])))
    }
}

/// The lines of a workspace's findings. The scores have one decimal.
pub fn finding_lines(
    fs: &Vec<Finding>,
    scores: &Vec<Option<String>>,
    workspace: &str,
) -> (r: Vec<String>)
    requires
        scores@.len() == fs@.len(),
        editor::can_cut(workspace@, 8),
    ensures
        text::views(r@) == findings_text(fs@, scores@, workspace@),
{
    let mut out: Vec<String> = Vec::new();
    let short = editor::str_cut(workspace, 8);
    let n: usize = fs.len();
    if n == 0 {
        let mut s = labelled("(no findings in workspace ", &short);
        s.push_str("…)");
        out.push(s);
        return out;
    }
    let mut head = digits::usize_to_string(n);
    head.push_str(" finding(s) in workspace ");
    head.push_str(&short);
    head.push_str("…:");
    out.push(head);
    let ghost first = text::views(out@);
    let ghost want = Seq::new(fs@.len(), |i: int| finding_text(fs@[i], text::opt_view(scores@[i])));
    let mut i: usize = 0;
    assert(first + want.take(0) =~= first);
    while i < n
        invariant
            i <= n,
            n == fs@.len(),
            scores@.len() == fs@.len(),
            want == Seq::new(
                fs@.len(),
                |i: int| finding_text(fs@[i], text::opt_view(scores@[i])),
            ),
            text::views(out@) == first + want.take(i as int),
        decreases n - i,
    {
        let f = &fs[i];
        let mut s = labelled("  [", &f.severity_label);
        s.push_str("] ");
        s.push_str(&f.title);
        match &scores[i] {
            Some(c) => {
                let t = labelled(" CVSS:", c);
                s.push_str(&t);
            },
            None => {
                assert(s@ + Seq::<char>::empty() =~= s@);
            },
        }
        s.push_str(" · ");
        s.push_str(&f.state_label);
        out.push(s);
        assert(first + want.take(i + 1) =~= (first + want.take(i as int)).push(want[i as int]));
        i += 1;
    }
    assert(want.take(want.len() as int) =~= want);
    out
}

// ---- files of a workspace ----------------------------------------------------------------------------

/// The workspace of a command: the one that is given, or else the bound one.
/// `bind` is the command that binds one.
pub fn workspace_for(given: Option<String>, bound: &Option<String>, bind: &str) -> (r: Result<
    String,
    String,
>)
    ensures
        config::text_result(r) == match (given, *bound) {
            (Some(w), _) => Ok(w@),
            (None, Some(w)) => Ok(w@),
            (None, None) => Err(
                "no workspace — pass --workspace <UUID> or run `"@ + bind@ + "` first"@,
            ),
        },
{
    match given {
        Some(w) => Ok(w),
        None => match bound {
            Some(w) => Ok(w.clone()),
            None => {
                let mut s = labelled("no workspace — pass --workspace <UUID> or run `", bind);
                s.push_str("` first");
                Err(s)
            },
        },
    }
}

/// Where uploads go: a folder with a slash behind it, or nothing.
pub open spec fn folder_prefix(dir: Option<Seq<char>>) -> Seq<char> {
    match dir {
        Some(d) => if pieces::trim_char(d, '/').len() > 0 {
            pieces::trim_char(d, '/') + "/"@
        } else {
            Seq::empty()
        },
        None => Seq::empty(),
    }
}

/// Where uploads go: a folder with a slash behind it, or nothing.
pub fn upload_prefix(dir: &Option<String>) -> (r: String)
    ensures
        r@ == folder_prefix(text::opt_view(*dir)),
{
    let none = "".to_owned();
    proof {
        reveal_strlit("");
        assert(none@ =~= Seq::<char>::empty());
    }
    match dir {
        Some(d) => {
            let mut t = pieces::str_trim_char(d, '/');
            if t.as_str().is_empty() {
                none
            } else {
                t.push_str("/");
                t
            }
        },
        None => none,
    }
}

/// The last line of an upload.
pub fn pushed_line(files: usize, workspace: &str) -> (r: String)
    requires
        editor::can_cut(workspace@, 8),
    ensures
        r@ == "done — "@ + digits::dec(files as nat) + " file(s) → workspace "@ + editor::cut(
            workspace@,
            8,
        ),
{
    let n = digits::usize_to_string(files);
    let mut s = labelled("done — ", &n);
    s.push_str(" file(s) → workspace ");
    let short = editor::str_cut(workspace, 8);
    s.push_str(&short);
    s
}

pub open spec fn dropped_text(files: nat, root: Option<Seq<char>>) -> Seq<char> {
    "✔ "@ + digits::dec(files) + " file(s) uploaded to the workspace"@ + (match root {
        Some(d) => " (synced to "@ + d + ")"@,
        None => Seq::empty(),
    })
}

/// The notice after dropped files were uploaded. `root` is where the first copy
/// went on this machine.
pub fn dropped_notice(files: usize, root: &Option<String>) -> (r: String)
    ensures
        r@ == dropped_text(files as nat, text::opt_view(*root)),
{
    let n = digits::usize_to_string(files);
    let mut s = labelled("✔ ", &n);
    s.push_str(" file(s) uploaded to the workspace");
    match root {
        Some(d) => {
            let mut t = labelled(" (synced to ", d);
            t.push_str(")");
            s.push_str(&t);
        },
        None => {
            assert(s@ + Seq::<char>::empty() =~= s@);
        },
    }
    s
}

pub open spec fn bound_text(workspace: Seq<char>) -> Seq<char> {
    "✔ bound workspace "@ + editor::cut(workspace, 8) + " — ^F findings · ^A approvals"@
}

/// The notice after a workspace was bound.
pub fn bound_notice(workspace: &str) -> (r: String)
    requires
        editor::can_cut(workspace@, 8),
    ensures
        r@ == bound_text(workspace@),
{
    let short = editor::str_cut(workspace, 8);
    let mut s = labelled("✔ bound workspace ", &short);
    s.push_str(" — ^F findings · ^A approvals");
    s
}

/// A workspace without files is no failure.
pub open spec fn nothing_to_sync(error: Seq<char>) -> bool {
    text::contains(error, "No files found to download"@) || text::contains(error, "HTTP 404"@)
}

/// What is said of a download that failed: a notice where the workspace has no
/// files, else an error.
pub fn sync_failure(error: &str) -> (r: Result<String, String>)
    ensures
        config::text_result(r) == if nothing_to_sync(error@) {
            Ok("workspace has no files yet — nothing to sync"@)
        } else {
            Err("workspace download failed: "@ + error@)
        },
{
    if text::str_contains(error, "No files found to download") || text::str_contains(
        error,
        "HTTP 404",
    ) {
        Ok("workspace has no files yet — nothing to sync".to_owned())
    } else {
        Err(labelled("workspace download failed: ", error))
    }
}

/// The line that says as whom the user is signed in.
pub fn auth_line(p: &Profile, tenant: &str) -> (r: String)
    requires
        editor::can_cut(p@.org_id, 8),
    ensures
        r@ == session::auth_text(tenant@, p@.base_url, p@.org_id),
{
    let mut s = labelled("✔ authenticated · tenant: ", tenant);
    s.push_str(" · ");
    s.push_str(&p.base_url);
    s.push_str(" · org ");
    let org = editor::str_cut(&p.org_id, 8);
    s.push_str(&org);
    s
}

} // verus!
