//! What the Strobes backend sends and is sent: records, paths and messages.

use vstd::prelude::*;
use crate::digits;
use crate::editor;
use crate::json;
use crate::json::Json;
use crate::pieces;
use crate::text;

verus! {

broadcast use {
    vstd::seq::group_seq_axioms,
    vstd::string::group_string_axioms,
    text::views_push,
    text::views_empty,
};

// ---- records -------------------------------------------------------------------

#[derive(Debug, Clone)]
pub struct Workspace {
    pub id: String,
    pub name: String,
    pub status: String,
    pub created_at: Option<String>,
}

#[derive(Debug, Clone)]
pub struct Thread {
    pub id: String,
    pub title: String,
    pub status: String,
    pub last_message: String,
    pub workspace_id: Option<String>,
    pub created_at: Option<String>,
}

#[derive(Debug, Clone)]
pub struct WorkspaceFile_ {
    pub name: String,
    pub path: String,
    pub is_folder: bool,
    pub size: u64,
}

#[derive(Debug, Clone)]
pub struct HistMsg {
    pub author: String,
    pub text: String,
}

#[derive(Debug, Clone)]
pub struct ActiveRun {
    pub id: String,
    pub status: String,
}

#[derive(Debug, Clone)]
pub struct ThreadHistory {
    pub messages: Vec<HistMsg>,
    pub active_run: Option<ActiveRun>,
}

/// A finding of a workspace. The CVSS score is kept as it is written.
#[derive(Debug, Clone)]
pub struct Finding {
    pub id: i64,
    pub title: String,
    pub severity_label: String,
    pub state_label: String,
    pub cvss: Option<String>,
    pub asset: Option<String>,
    pub description: String,
    pub mitigation: String,
}

pub struct Approval {
    pub id: String,
    pub thread_id: String,
    pub state: String,
    pub action_type: String,
    pub module: String,
    pub summary: String,
    pub target_ids: Json,
}

#[derive(Debug, Clone)]
pub struct SlashCmd {
    pub name: String,
    pub description: String,
    pub argument_hint: String,
}

#[derive(Debug, Clone)]
pub struct WorkflowTemplate {
    pub slug: String,
    pub name: String,
    pub description: String,
    pub icon: String,
    pub version: String,
    pub phase_count: i64,
    pub required_variables: Vec<String>,
    pub phases: Vec<WorkflowTemplatePhase>,
}

#[derive(Debug, Clone)]
pub struct WorkflowTemplatePhase {
    pub key: String,
    pub name: String,
    pub order: i64,
    pub task_count: i64,
}

#[derive(Debug, Clone)]
pub struct WorkflowState {
    pub workflow_id: String,
    pub template_slug: Option<String>,
    pub template_version: Option<String>,
    pub status: String,
    pub current_phase_key: Option<String>,
    pub total_tasks: i64,
    pub completed_tasks: i64,
    pub started_at: Option<String>,
    pub completed_at: Option<String>,
    pub phases: Vec<WorkflowStatePhase>,
}

#[derive(Debug, Clone)]
pub struct WorkflowStatePhase {
    pub phase_key: String,
    pub phase_name: String,
    pub order: i64,
    pub status: String,
    pub started_at: Option<String>,
    pub completed_at: Option<String>,
}

// ---- models --------------------------------------------------------------------

/// The ids that the backend knows, in the order in which they are offered. The
/// id 0 stands for the organisation's own choice.
pub const BUILTIN_MODELS: [i64; 19] = [
    0,
    4,
    10,
    18,
    11,
    14,
    21,
    24,
    12,
    15,
    16,
    19,
    17,
    22,
    20,
    25,
    26,
    27,
    28,
];

/// Models by their labels.
pub open spec fn labels(v: Seq<(i64, String)>) -> Seq<(i64, Seq<char>)> {
    v.map_values(|m: (i64, String)| (m.0, m.1@))
}

proof fn labels_push(v: Seq<(i64, String)>, m: (i64, String))
    ensures
        labels(v.push(m)) == labels(v).push((m.0, m.1@)),
{
    assert(labels(v.push(m)) =~= labels(v).push((m.0, m.1@)));
}

/// The label in a table of models, the first of that id.
pub open spec fn model_in(t: Seq<(i64, Seq<char>)>, id: i64) -> Option<Seq<char>>
    decreases t.len(),
{
    if t.len() == 0 {
        None
    } else if t[0].0 == id {
        Some(t[0].1)
    } else {
        model_in(t.skip(1), id)
    }
}

/// The name that a model is shown by: its label in the table.
pub open spec fn model_text(t: Seq<(i64, Seq<char>)>, id: Option<i64>) -> Seq<char> {
    match id {
        None => "Default"@,
        Some(n) => if n == 0 {
            "Default"@
        } else {
            match model_in(t, n) {
                Some(name) => name,
                None => "model:"@ + digits::dec_int(n as int),
            }
        },
    }
}

/// The name that a model is shown by.
pub fn model_name(models: &Vec<(i64, String)>, id: Option<i64>) -> (r: String)
    ensures
        r@ == model_text(labels(models@), id),
{
    match id {
        None => "Default".to_owned(),
        Some(n) => {
            if n == 0 {
                return "Default".to_owned();
            }
            let ghost t = labels(models@);
            let mut i: usize = 0;
            assert(t.skip(0) =~= t);
            while i < models.len()
                invariant
                    i <= models@.len(),
                    t == labels(models@),
                    n != 0,
                    id == Some(n),
                    model_in(t, n) == model_in(t.skip(i as int), n),
                decreases models@.len() - i,
            {
                proof {
                    assert(t.skip(i as int)[0] == (models@[i as int].0, models@[i as int].1@));
                    assert(t.skip(i as int).skip(1) =~= t.skip(i as int + 1));
                }
                if models[i].0 == n {
                    return models[i].1.clone();
                }
                i += 1;
            }
            let mut s = "model:".to_owned();
            let d = digits::i64_to_string(n);
            s.push_str(&d);
            s
        },
    }
}

/// What a model is offered as.
pub open spec fn offered_as(t: Seq<(i64, Seq<char>)>, id: i64) -> Seq<char> {
    if id == 0 {
        "Default (org setting)"@
    } else {
        model_text(t, Some(id))
    }
}

/// The models on offer, with the labels that `t` gives them.
pub open spec fn offered_models(t: Seq<(i64, Seq<char>)>) -> Seq<(i64, Seq<char>)> {
    Seq::new(19, |i: int| (BUILTIN_MODELS@[i], offered_as(t, BUILTIN_MODELS@[i])))
}

/// The table of the models on offer, with the labels that were read for them.
pub fn model_table(read: &Vec<(i64, String)>) -> (r: Vec<(i64, String)>)
    ensures
        labels(r@) == offered_models(labels(read@)),
{
    let ids = BUILTIN_MODELS;
    let ghost want = offered_models(labels(read@));
    let mut out: Vec<(i64, String)> = Vec::new();
    assert(labels(out@) =~= want.take(0));
    let mut i: usize = 0;
    while i < 19
        invariant
            i <= 19,
            ids == BUILTIN_MODELS,
            want == offered_models(labels(read@)),
            labels(out@) == want.take(i as int),
        decreases 19 - i,
    {
        let id = ids[i];
        let label = if id == 0 {
            "Default (org setting)".to_owned()
        } else {
            model_name(read, Some(id))
        };
        proof {
            labels_push(out@, (id, label));
            assert(want.take(i + 1) =~= want.take(i as int).push(want[i as int]));
        }
        out.push((id, label));
        i += 1;
    }
    assert(want.take(19) =~= want);
    out
}

/// What a line of a list of models says: an id, then a label.
pub open spec fn model_line(line: Seq<char>) -> Option<(i64, Seq<char>)> {
    let t = pieces::trim(line);
    match pieces::index_of(t, ' ') {
        Some(k) => match digits::parse_i64(t.take(k)) {
            Some(id) => Some((id as i64, pieces::trim(t.skip(k + 1)))),
            None => None,
        },
        None => None,
    }
}

pub open spec fn models_read(lines: Seq<Seq<char>>) -> Seq<(i64, Seq<char>)>
    decreases lines.len(),
{
    if lines.len() == 0 {
        Seq::empty()
    } else {
        let before = models_read(lines.drop_last());
        match model_line(lines.last()) {
            Some(m) => before.push(m),
            None => before,
        }
    }
}

fn read_model_line(line: &str) -> (r: Option<(i64, String)>)
    ensures
        match r {
            Some(m) => model_line(line@) == Some((m.0, m.1@)),
            None => model_line(line@) is None,
        },
{
    let t = pieces::str_trim(line);
    let v = text::chars_of(&t);
    match pieces::chars_index_from(&v, ' ', 0) {
        Some(k) => {
            let head = pieces::str_take(&t, k);
            match digits::str_to_i64(&head) {
                Some(id) => {
                    let n: usize = v.len();
                    let tail = pieces::str_skip(&t, k + 1);
                    Some((id, pieces::str_trim(&tail)))
                },
                None => None,
            }
        },
        None => None,
    }
}

/// The ids and labels that a list of models holds, one to a line. Other lines
/// say nothing.
pub fn read_models(content: &str) -> (r: Vec<(i64, String)>)
    ensures
        labels(r@) == models_read(pieces::lines(content@)),
{
    let lines = pieces::str_lines(content);
    let ghost all = text::views(lines@);
    let mut out: Vec<(i64, String)> = Vec::new();
    assert(labels(out@) =~= Seq::empty());
    let mut i: usize = 0;
    while i < lines.len()
        invariant
            i <= lines@.len(),
            all == text::views(lines@),
            labels(out@) == models_read(all.take(i as int)),
        decreases lines@.len() - i,
    {
        assert(all.take(i + 1).drop_last() =~= all.take(i as int));
        assert(all.take(i + 1).last() == lines@[i as int]@);
        match read_model_line(&lines[i]) {
            Some(m) => {
                proof {
                    labels_push(out@, m);
                }
                out.push(m);
            },
            None => {},
        }
        i += 1;
    }
    assert(all.take(all.len() as int) =~= all);
    out
}

// ---- paths ---------------------------------------------------------------------

/// A path under an organisation.
pub open spec fn org_path_text(prefix: Seq<char>, org: Seq<char>, suffix: Seq<char>) -> Seq<char> {
    prefix + "/organizations/"@ + org + suffix
}

/// A path under an organisation.
pub fn org_path(prefix: &str, org: &str, suffix: &str) -> (r: String)
    ensures
        r@ == org_path_text(prefix@, org@, suffix@),
{
    let mut s = prefix.to_owned();
    s.push_str("/organizations/");
    s.push_str(org);
    s.push_str(suffix);
    s
}

/// The threads, of one workspace where it is given.
pub open spec fn threads_text(workspace: Option<Seq<char>>) -> Seq<char> {
    match workspace {
        Some(w) => "/cli/threads/"@ + "?workspace_id="@ + w,
        None => "/cli/threads/"@,
    }
}

pub fn threads_suffix(workspace: Option<&str>) -> (r: String)
    ensures
        r@ == threads_text(
            match workspace {
                Some(w) => Some(w@),
                None => None,
            },
        ),
{
    let mut s = "/cli/threads/".to_owned();
    if let Some(w) = workspace {
        s.push_str("?workspace_id=");
        s.push_str(w);
    }
    s
}

/// The messages of a thread, at most `limit` of them.
pub fn messages_suffix(thread: &str, limit: u32) -> (r: String)
    ensures
        r@ == "/cli/threads/"@ + thread@ + "/messages/?limit="@ + digits::dec(limit as nat),
{
    let mut s = "/cli/threads/".to_owned();
    s.push_str(thread);
    s.push_str("/messages/?limit=");
    let n = digits::u64_to_string(limit as u64);
    s.push_str(&n);
    s
}

/// The events of a thread after a sequence number, at most `limit` of them.
pub fn events_suffix(thread: &str, after_seq: i64, limit: u32) -> (r: String)
    ensures
        r@ == "/cli/threads/"@ + thread@ + "/events/?after_seq="@ + digits::dec_int(after_seq as int)
            + "&limit="@ + digits::dec(limit as nat),
{
    let mut s = "/cli/threads/".to_owned();
    s.push_str(thread);
    s.push_str("/events/?after_seq=");
    let a = digits::i64_to_string(after_seq);
    s.push_str(&a);
    s.push_str("&limit=");
    let n = digits::u64_to_string(limit as u64);
    s.push_str(&n);
    s
}

/// A part of a workspace.
pub open spec fn workspace_text(workspace: Seq<char>, rest: Seq<char>) -> Seq<char> {
    "/cli/workspaces/"@ + workspace + rest
}

/// A part of a workspace: `/files/?recursive=true`, `/findings/?limit=500`,
/// `/approvals/?limit=500`, `/upload/`, `/download/`, `/workflow/` or what is
/// under it.
pub fn workspace_suffix(workspace: &str, rest: &str) -> (r: String)
    ensures
        r@ == workspace_text(workspace@, rest@),
{
    let mut s = "/cli/workspaces/".to_owned();
    s.push_str(workspace);
    s.push_str(rest);
    s
}

/// The files of a workspace.
pub fn files_suffix(workspace: &str, recursive: bool) -> (r: String)
    ensures
        r@ == workspace_text(
            workspace@,
            if recursive {
                "/files/?recursive=true"@
            } else {
                "/files/?recursive=false"@
            },
        ),
{
    if recursive {
        workspace_suffix(workspace, "/files/?recursive=true")
    } else {
        workspace_suffix(workspace, "/files/?recursive=false")
    }
}

/// A control action on a workflow.
pub fn workflow_action_suffix(workspace: &str, action: &str) -> (r: String)
    ensures
        r@ == workspace_text(workspace@, "/workflow/"@ + action@ + "/"@),
{
    let mut rest = "/workflow/".to_owned();
    rest.push_str(action);
    rest.push_str("/");
    workspace_suffix(workspace, &rest)
}

/// The credit totals, of a workspace or a thread or both where given.
pub open spec fn credits_text(workspace: Option<Seq<char>>, thread: Option<Seq<char>>) -> Seq<char> {
    match (workspace, thread) {
        (None, None) => "/cli/credits/"@,
        (Some(w), None) => "/cli/credits/?"@ + "workspace_id="@ + w,
        (None, Some(t)) => "/cli/credits/?"@ + "thread_id="@ + t,
        (Some(w), Some(t)) => "/cli/credits/?"@ + "workspace_id="@ + w + "&thread_id="@ + t,
    }
}

pub open spec fn str_view(o: Option<&str>) -> Option<Seq<char>> {
    match o {
        Some(s) => Some(s@),
        None => None,
    }
}

pub fn credits_suffix(workspace: Option<&str>, thread: Option<&str>) -> (r: String)
    ensures
        r@ == credits_text(str_view(workspace), str_view(thread)),
{
    match (workspace, thread) {
        (None, None) => "/cli/credits/".to_owned(),
        (Some(w), None) => {
            let mut s = "/cli/credits/?".to_owned();
            s.push_str("workspace_id=");
            s.push_str(w);
            s
        },
        (None, Some(t)) => {
            let mut s = "/cli/credits/?".to_owned();
            s.push_str("thread_id=");
            s.push_str(t);
            s
        },
        (Some(w), Some(t)) => {
            let mut s = "/cli/credits/?".to_owned();
            s.push_str("workspace_id=");
            s.push_str(w);
            s.push_str("&thread_id=");
            s.push_str(t);
            s
        },
    }
}

/// The value of the `Authorization` header.
pub fn authorization(master_key: &str) -> (r: String)
    ensures
        r@ == "token "@ + master_key@,
{
    let mut s = "token ".to_owned();
    s.push_str(master_key);
    s
}

// ---- messages ------------------------------------------------------------------

/// A text cut after `n` bytes, marked where something is left out.
pub open spec fn trunc_text(s: Seq<char>, n: nat) -> Seq<char> {
    if text::byte_len(s) <= n {
        s
    } else {
        editor::head_bytes(s, n) + "…"@
    }
}

/// A text cut after `n` bytes, marked where something is left out.
pub fn trunc(s: &str, n: usize) -> (r: String)
    requires
        editor::can_cut(s@, n as nat),
    ensures
        r@ == trunc_text(s@, n as nat),
{
    if text::str_byte_len(s) <= n {
        s.to_owned()
    } else {
        let mut out = editor::str_head_bytes(s, n);
        out.push_str("…");
        out
    }
}

/// Whether an HTTP status is a success.
pub fn is_success(code: u16) -> (r: bool)
    ensures
        r == (200 <= code < 300),
{
    200 <= code && code < 300
}

/// The error for a response that is no success.
pub fn http_error(method: &str, path: &str, code: u16, body: &str) -> (r: String)
    requires
        editor::can_cut(body@, 300),
    ensures
        r@ == method@ + " "@ + path@ + " -> HTTP "@ + digits::dec(code as nat) + ": "@ + trunc_text(
            body@,
            300,
        ),
{
    let mut s = method.to_owned();
    s.push_str(" ");
    s.push_str(path);
    s.push_str(" -> HTTP ");
    let c = digits::u64_to_string(code as u64);
    s.push_str(&c);
    s.push_str(": ");
    let b = trunc(body, 300);
    s.push_str(&b);
    s
}

/// The error for an upload that was refused.
pub fn upload_error(code: u16, body: &str) -> (r: String)
    requires
        editor::can_cut(body@, 200),
    ensures
        r@ == "upload failed: HTTP "@ + digits::dec(code as nat) + ": "@ + trunc_text(body@, 200),
{
    let mut s = "upload failed: HTTP ".to_owned();
    let c = digits::u64_to_string(code as u64);
    s.push_str(&c);
    s.push_str(": ");
    let b = trunc(body, 200);
    s.push_str(&b);
    s
}

/// What a response body holds: `null` where it is no JSON document.
pub open spec fn body_value(body: Seq<char>) -> json::JsonView {
    match json::parsed(body) {
        Some(v) => v,
        None => json::JsonView::Null,
    }
}

/// What a response body holds: `null` where it is no JSON document.
pub fn parse_body(body: &str) -> (r: Json)
    ensures
        r@ == body_value(body@),
{
    match json::parse(body) {
        Some(v) => v,
        None => Json::Null,
    }
}

/// The id and the setup thread of a workspace that was created, or the error
/// that shows the reply.
pub fn created_workspace(reply: &Json) -> (r: Result<(String, Option<String>), String>)
    ensures
        match json::as_text(json::field(reply@, "id"@)) {
            Some(id) => r matches Ok(p) && p.0@ == id && text::opt_view(p.1) == json::as_text(
                json::field(reply@, "setup_thread_id"@),
            ),
            None => r matches Err(e) && e@ == "create workspace failed: "@ + json::compact_text(
                json::normal(reply@),
            ),
        },
{
    match json::opt_text(reply.get("id")) {
        Some(id) => Ok((id, json::opt_text(reply.get("setup_thread_id")))),
        None => {
            let mut e = "create workspace failed: ".to_owned();
            let t = json::to_text(reply);
            e.push_str(&t);
            Err(e)
        },
    }
}

/// The id of a thread that was created, or the error that shows the reply.
pub fn created_thread(reply: &Json) -> (r: Result<String, String>)
    ensures
        match json::as_text(json::field(reply@, "id"@)) {
            Some(id) => r matches Ok(t) && t@ == id,
            None => r matches Err(e) && e@ == "create thread failed: "@ + json::compact_text(
                json::normal(reply@),
            ),
        },
{
    match json::opt_text(reply.get("id")) {
        Some(id) => Ok(id),
        None => {
            let mut e = "create thread failed: ".to_owned();
            let t = json::to_text(reply);
            e.push_str(&t);
            Err(e)
        },
    }
}

/// The URL of a workspace archive, or the error that shows the reply.
pub fn download_url(reply: &Json) -> (r: Result<String, String>)
    ensures
        match json::as_text(json::field(reply@, "url"@)) {
            Some(u) => r matches Ok(t) && t@ == u,
            None => r matches Err(e) && e@ == "no download url returned: "@ + json::compact_text(
                json::normal(reply@),
            ),
        },
{
    match json::opt_text(reply.get("url")) {
        Some(u) => Ok(u),
        None => {
            let mut e = "no download url returned: ".to_owned();
            let t = json::to_text(reply);
            e.push_str(&t);
            Err(e)
        },
    }
}

// ---- GraphQL literals ------------------------------------------------------------

/// `s` with backslash, quote, line feed, carriage return and tab escaped, in
/// that order.
pub open spec fn escaped(s: Seq<char>) -> Seq<char> {
    pieces::replace_char(
        pieces::replace_char(
            pieces::replace_char(
                pieces::replace_char(pieces::replace_char(s, '\\', "\\\\"@), '"', "\\\""@),
                '\n',
                "\\n"@,
            ),
            '\r',
            "\\r"@,
        ),
        '\t',
        "\\t"@,
    )
}

/// A text that a block string cannot hold: it holds the block quotes, or its
/// last character would join with the quotes that close the literal.
pub open spec fn breaks_block(s: Seq<char>) -> bool {
    text::contains(s, "\"\"\""@) || text::ends_with(s, "\""@) || text::ends_with(s, "\\"@)
}

/// A text as a GraphQL string: a block string, or an escaped string where a
/// block string cannot hold it.
pub open spec fn gql_text(s: Seq<char>) -> Seq<char> {
    if breaks_block(s) {
        "\""@ + escaped(s) + "\""@
    } else {
        "\"\"\""@ + s + "\"\"\""@
    }
}

/// A text as a GraphQL string.
pub fn gql_string(s: &str) -> (r: String)
    ensures
        r@ == gql_text(s@),
{
    if text::str_contains(s, "\"\"\"") || text::str_ends_with(s, "\"") || text::str_ends_with(
        s,
        "\\",
    ) {
        let a = pieces::str_replace_char(s, '\\', "\\\\");
        let b = pieces::str_replace_char(&a, '"', "\\\"");
        let c = pieces::str_replace_char(&b, '\n', "\\n");
        let d = pieces::str_replace_char(&c, '\r', "\\r");
        let e = pieces::str_replace_char(&d, '\t', "\\t");
        let mut out = "\"".to_owned();
        out.push_str(&e);
        out.push_str("\"");
        out
    } else {
        let mut out = "\"\"\"".to_owned();
        out.push_str(s);
        out.push_str("\"\"\"");
        out
    }
}

/// The character that stands behind a backslash for another one.
pub open spec fn meant_by(c: char) -> Option<char> {
    if c == '\\' || c == '"' {
        Some(c)
    } else if c == 'n' {
        Some('\n')
    } else if c == 'r' {
        Some('\r')
    } else if c == 't' {
        Some('\t')
    } else {
        None
    }
}

/// What stands between the quotes of an escaped string, read back. A bare quote
/// or line end would end the string early.
pub open spec fn unescaped(t: Seq<char>) -> Option<Seq<char>>
    decreases t.len(),
{
    if t.len() == 0 {
        Some(Seq::empty())
    } else if t[0] == '\\' {
        if t.len() < 2 {
            None
        } else {
            match (meant_by(t[1]), unescaped(t.skip(2))) {
                (Some(c), Some(rest)) => Some(seq![c] + rest),
                _ => None,
            }
        }
    } else if t[0] == '"' || t[0] == '\n' || t[0] == '\r' {
        None
    } else {
        match unescaped(t.skip(1)) {
            Some(rest) => Some(seq![t[0]] + rest),
            None => None,
        }
    }
}

/// The text that a GraphQL string literal holds, where the literal ends exactly
/// with its last character. Of a block string it is the text between the block
/// quotes as it is written.
pub open spec fn literal_text(t: Seq<char>) -> Option<Seq<char>> {
    let block = "\"\"\""@;
    let n = t.len() as int;
    if text::starts_with(t, block) {
        if n >= 6 && text::find_from(t, block, 3) == Some(n - 3) && t[n - 4] != '\\' {
            Some(t.subrange(3, n - 3))
        } else {
            None
        }
    } else if n >= 2 && t[0] == '"' && t[n - 1] == '"' {
        unescaped(t.subrange(1, n - 1))
    } else {
        None
    }
}

proof fn escaped_joins(a: Seq<char>, b: Seq<char>)
    ensures
        escaped(a + b) == escaped(a) + escaped(b),
{
    let (a1, b1) = (
        pieces::replace_char(a, '\\', "\\\\"@),
        pieces::replace_char(b, '\\', "\\\\"@),
    );
    let (a2, b2) = (
        pieces::replace_char(a1, '"', "\\\""@),
        pieces::replace_char(b1, '"', "\\\""@),
    );
    let (a3, b3) = (
        pieces::replace_char(a2, '\n', "\\n"@),
        pieces::replace_char(b2, '\n', "\\n"@),
    );
    let (a4, b4) = (
        pieces::replace_char(a3, '\r', "\\r"@),
        pieces::replace_char(b3, '\r', "\\r"@),
    );
    pieces::replace_joins(a, b, '\\', "\\\\"@);
    pieces::replace_joins(a1, b1, '"', "\\\""@);
    pieces::replace_joins(a2, b2, '\n', "\\n"@);
    pieces::replace_joins(a3, b3, '\r', "\\r"@);
    pieces::replace_joins(a4, b4, '\t', "\\t"@);
}

/// Neither of two characters is replaced.
proof fn pair_stays(x: char, y: char, c: char, by: Seq<char>)
    requires
        x != c,
        y != c,
    ensures
        pieces::replace_char(seq![x, y], c, by) == seq![x, y],
{
    assert(seq![x, y] =~= seq![x] + seq![y]);
    pieces::replace_joins(seq![x], seq![y], c, by);
    pieces::replace_one(x, c, by);
    pieces::replace_one(y, c, by);
}

proof fn escaped_character(c: char)
    ensures
        escaped(seq![c]) == if c == '\\' {
            seq!['\\', '\\']
        } else if c == '"' {
            seq!['\\', '"']
        } else if c == '\n' {
            seq!['\\', 'n']
        } else if c == '\r' {
            seq!['\\', 'r']
        } else if c == '\t' {
            seq!['\\', 't']
        } else {
            seq![c]
        },
{
    reveal_strlit("\\\\");
    reveal_strlit("\\\"");
    reveal_strlit("\\n");
    reveal_strlit("\\r");
    reveal_strlit("\\t");
    assert("\\\\"@ =~= seq!['\\', '\\']);
    assert("\\\""@ =~= seq!['\\', '"']);
    assert("\\n"@ =~= seq!['\\', 'n']);
    assert("\\r"@ =~= seq!['\\', 'r']);
    assert("\\t"@ =~= seq!['\\', 't']);
    pieces::replace_one(c, '\\', "\\\\"@);
    pieces::replace_one(c, '"', "\\\""@);
    pieces::replace_one(c, '\n', "\\n"@);
    pieces::replace_one(c, '\r', "\\r"@);
    pieces::replace_one(c, '\t', "\\t"@);
    if c == '\\' {
        pair_stays('\\', '\\', '"', "\\\""@);
        pair_stays('\\', '\\', '\n', "\\n"@);
        pair_stays('\\', '\\', '\r', "\\r"@);
        pair_stays('\\', '\\', '\t', "\\t"@);
    } else if c == '"' {
        pair_stays('\\', '"', '\n', "\\n"@);
        pair_stays('\\', '"', '\r', "\\r"@);
        pair_stays('\\', '"', '\t', "\\t"@);
    } else if c == '\n' {
        pair_stays('\\', 'n', '\r', "\\r"@);
        pair_stays('\\', 'n', '\t', "\\t"@);
    } else if c == '\r' {
        pair_stays('\\', 'r', '\t', "\\t"@);
    }
}

proof fn escapes_come_back(s: Seq<char>)
    ensures
        unescaped(escaped(s)) == Some(s),
    decreases s.len(),
{
    if s.len() == 0 {
        assert(s =~= Seq::empty());
        reveal_with_fuel(pieces::replace_char, 2);
        assert(escaped(s) =~= Seq::<char>::empty());
    } else {
        let c = s[0];
        let rest = s.skip(1);
        assert(s =~= seq![c] + rest);
        escaped_joins(seq![c], rest);
        escaped_character(c);
        escapes_come_back(rest);
        let t = escaped(s);
        let e = escaped(seq![c]);
        assert(t.skip(e.len() as int) =~= escaped(rest));
        assert(t[0] == e[0]);
        if e.len() == 2 {
            assert(t[1] == e[1]);
        }
    }
}

proof fn escaped_begins(s: Seq<char>)
    requires
        s.len() > 0,
    ensures
        escaped(s).len() > 0,
        escaped(s)[0] != '"',
{
    assert(s =~= seq![s[0]] + s.skip(1));
    escaped_joins(seq![s[0]], s.skip(1));
    escaped_character(s[0]);
    assert(escaped(s)[0] == escaped(seq![s[0]])[0]);
}

proof fn escaped_literal_holds(s: Seq<char>)
    requires
        s.len() > 0,
    ensures
        literal_text("\""@ + escaped(s) + "\""@) == Some(s),
{
    reveal_strlit("\"\"\"");
    reveal_strlit("\"");
    let t = "\""@ + escaped(s) + "\""@;
    let n = t.len() as int;
    escaped_begins(s);
    escapes_come_back(s);
    assert(t.subrange(1, n - 1) =~= escaped(s));
    assert(t[1] == escaped(s)[0]);
    if text::starts_with(t, "\"\"\""@) {
        assert(t.subrange(0, 3)[1] == t[1]);
    }
}

proof fn block_closes_at_its_end(s: Seq<char>, i: int)
    requires
        !breaks_block(s),
        3 <= i < s.len() + 3,
    ensures
        !text::occurs_at("\"\"\""@ + s + "\"\"\""@, "\"\"\""@, i),
{
    reveal_strlit("\"\"\"");
    reveal_strlit("\"");
    let block = "\"\"\""@;
    let t = block + s + block;
    if text::occurs_at(t, block, i) {
        if i <= s.len() {
            assert(s.subrange(i - 3, i) =~= t.subrange(i, i + 3));
            assert(text::occurs_at(s, block, i - 3));
        } else {
            let last = s.len() - 1;
            assert(t.subrange(i, i + 3)[last + 3 - i] == t[last + 3]);
            assert(block[last + 3 - i] == '"');
            assert(s.subrange(last, last + 1) =~= "\""@);
            assert(text::ends_with(s, "\""@));
        }
    }
}

proof fn block_literal_holds(s: Seq<char>)
    requires
        !breaks_block(s),
    ensures
        literal_text("\"\"\""@ + s + "\"\"\""@) == Some(s),
{
    reveal_strlit("\"\"\"");
    reveal_strlit("\\");
    let block = "\"\"\""@;
    let t = block + s + block;
    let n = t.len() as int;
    assert(t.subrange(0, 3) =~= block);
    assert(t.subrange(3, n - 3) =~= s);
    assert(t.subrange(n - 3, n) =~= block);
    assert(text::occurs_at(t, block, n - 3));
    text::find_from_is_first(t, block, 3);
    assert forall|i: int| 3 <= i < n - 3 implies !text::occurs_at(t, block, i) by {
        block_closes_at_its_end(s, i);
    }
    if s.len() > 0 {
        let last = s.len() - 1;
        assert(s[last] == t[n - 4]);
        if s[last] == '\\' {
            assert(s.subrange(last, last + 1) =~= "\\"@);
            assert(text::ends_with(s, "\\"@));
        }
    } else {
        assert(t[n - 4] == block[2]);
    }
}

/// The literal of a text is one literal, and it holds the text.
pub proof fn literals_hold_their_text(s: Seq<char>)
    ensures
        literal_text(gql_text(s)) == Some(s),
{
    if breaks_block(s) {
        reveal_strlit("\"\"\"");
        reveal_strlit("\"");
        reveal_strlit("\\");
        escaped_literal_holds(s);
    } else {
        block_literal_holds(s);
    }
}

/// A JSON value as an inline GraphQL input literal.
pub open spec fn gql_input(j: json::JsonView) -> Seq<char>
    decreases j,
{
    match j {
        json::JsonView::Null => "null"@,
        json::JsonView::Bool(b) => if b {
            "true"@
        } else {
            "false"@
        },
        json::JsonView::Num(s) => s,
        json::JsonView::Str(s) => gql_text(s),
        json::JsonView::Arr(v) => "["@ + pieces::join(gql_items(v), ", "@) + "]"@,
        json::JsonView::Obj(f) => if f.len() == 0 {
            "{}"@
        } else {
            "{ "@ + pieces::join(gql_fields(f), ", "@) + " }"@
        },
    }
}

pub open spec fn gql_items(v: Seq<json::JsonView>) -> Seq<Seq<char>>
    decreases v,
{
    if v.len() == 0 {
        Seq::empty()
    } else {
        gql_items(v.drop_last()).push(gql_input(v.last()))
    }
}

pub open spec fn gql_fields(f: Seq<(Seq<char>, json::JsonView)>) -> Seq<Seq<char>>
    decreases f,
{
    if f.len() == 0 {
        Seq::empty()
    } else {
        gql_fields(f.drop_last()).push(f.last().0 + ": "@ + gql_input(f.last().1))
    }
}

/// A JSON value as an inline GraphQL input literal.
pub fn json_to_gql_input(j: &Json) -> (r: String)
    ensures
        r@ == gql_input(j@),
    decreases j@,
{
    match j {
        Json::Null => "null".to_owned(),
        Json::Bool(b) => if *b {
            "true".to_owned()
        } else {
            "false".to_owned()
        },
        Json::Num(s) => s.clone(),
        Json::Str(s) => gql_string(s),
        Json::Arr(a) => {
            let ghost all = json::values(a@);
            proof {
                json::values_index(a@);
            }
            let mut parts: Vec<String> = Vec::new();
            let mut i: usize = 0;
            assert(all.take(0) =~= Seq::empty());
            while i < a.len()
                invariant
                    i <= a@.len(),
                    j@ == json::JsonView::Arr(all),
                    all.len() == a@.len(),
                    forall|k: int| 0 <= k < a@.len() ==> (#[trigger] all[k]) == json::value(a@[k]),
                    text::views(parts@) == gql_items(all.take(i as int)),
                decreases a@.len() - i,
            {
                proof {
                    let w = j@->Arr_0;
                    assert(w[i as int] == all[i as int]);
                    assert(decreases_to!(j@ => j@->Arr_0));
                    assert(decreases_to!(w => w[i as int]));
                }
                let t = json_to_gql_input(&a[i]);
                parts.push(t);
                assert(all.take(i as int + 1).drop_last() =~= all.take(i as int));
                i += 1;
            }
            assert(all.take(all.len() as int) =~= all);
            let body = pieces::str_join(&parts, ", ");
            let mut out = "[".to_owned();
            out.push_str(&body);
            out.push_str("]");
            out
        },
        Json::Obj(o) => {
            let ghost all = json::fields(o@);
            proof {
                json::fields_index(o@);
            }
            if o.len() == 0 {
                return "{}".to_owned();
            }
            let mut parts: Vec<String> = Vec::new();
            let mut i: usize = 0;
            assert(all.take(0) =~= Seq::empty());
            while i < o.len()
                invariant
                    i <= o@.len(),
                    j@ == json::JsonView::Obj(all),
                    all.len() == o@.len(),
                    forall|k: int|
                        0 <= k < o@.len() ==> (#[trigger] all[k]) == (o@[k].0@, json::value(o@[k].1)),
                    text::views(parts@) == gql_fields(all.take(i as int)),
                decreases o@.len() - i,
            {
                proof {
                    let w = j@->Obj_0;
                    assert(w[i as int] == all[i as int]);
                    assert(decreases_to!(j@ => j@->Obj_0));
                    assert(decreases_to!(w => w[i as int]));
                    assert(decreases_to!(w[i as int] => w[i as int].1));
                }
                let t = json_to_gql_input(&o[i].1);
                let mut p = o[i].0.clone();
                p.push_str(": ");
                p.push_str(&t);
                parts.push(p);
                assert(all.take(i as int + 1).drop_last() =~= all.take(i as int));
                i += 1;
            }
            assert(all.take(all.len() as int) =~= all);
            let body = pieces::str_join(&parts, ", ");
            let mut out = "{ ".to_owned();
            out.push_str(&body);
            out.push_str(" }");
            out
        },
    }
}

} // verus!
