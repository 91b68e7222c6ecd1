//! Tools of the agent that run on the user's machine.

use vstd::prelude::*;
use crate::egress_proxy;
use crate::json;
use crate::json::Json;
use crate::pieces;
use crate::scan;
use crate::text;

verus! {

broadcast use {
    vstd::seq::group_seq_axioms,
    vstd::string::group_string_axioms,
    text::views_push,
    text::views_empty,
    json::fields_push,
    json::fields_empty,
    json::values_push,
    json::values_empty,
};

/// What a tool gave.
pub struct LocalResult {
    pub output: String,
    pub exit_code: Option<i32>,
    pub error: Option<String>,
    pub captured_network: Vec<Json>,
}

pub struct ResultView {
    pub output: Seq<char>,
    pub exit_code: Option<i32>,
    pub error: Option<Seq<char>>,
    pub captured_network: Seq<json::JsonView>,
}

impl View for LocalResult {
    type V = ResultView;

    open spec fn view(&self) -> ResultView {
        ResultView {
            output: self.output@,
            exit_code: self.exit_code,
            error: text::opt_view(self.error),
            captured_network: json::values(self.captured_network@),
        }
    }
}

/// A result without an error.
pub open spec fn gave(output: Seq<char>, code: Option<i32>) -> ResultView {
    ResultView { output, exit_code: code, error: None, captured_network: Seq::empty() }
}

/// A result with an error.
pub open spec fn failed(error: Seq<char>, code: Option<i32>) -> ResultView {
    ResultView {
        output: Seq::empty(),
        exit_code: code,
        error: Some(error),
        captured_network: Seq::empty(),
    }
}

fn no_text() -> (r: String)
    ensures
        r@ == Seq::<char>::empty(),
{
    let r = "".to_owned();
    proof {
        reveal_strlit("");
        assert(r@ =~= Seq::<char>::empty());
    }
    r
}

impl LocalResult {
    /// A result without an error.
    pub fn of(output: String, code: Option<i32>) -> (r: LocalResult)
        ensures
            r@ == gave(output@, code),
    {
        LocalResult { output, exit_code: code, error: None, captured_network: Vec::new() }
    }

    /// A result with an error.
    pub fn failure(error: String, code: Option<i32>) -> (r: LocalResult)
        ensures
            r@ == failed(error@, code),
    {
        LocalResult {
            output: no_text(),
            exit_code: code,
            error: Some(error),
            captured_network: Vec::new(),
        }
    }
}

// ---- where tools work ----------------------------------------------------------------------------

/// The folder of a tool: one that is set, or names below the home folder.
pub enum SandboxDir {
    Given(String),
    InHome(Vec<String>),
}

pub enum SandboxDirView {
    Given(Seq<char>),
    InHome(Seq<Seq<char>>),
}

impl View for SandboxDir {
    type V = SandboxDirView;

    open spec fn view(&self) -> SandboxDirView {
        match self {
            SandboxDir::Given(d) => SandboxDirView::Given(d@),
            SandboxDir::InHome(v) => SandboxDirView::InHome(text::views(v@)),
        }
    }
}

/// The folder of a thread's tools: every thread has one of its own, unless one
/// is set for all.
pub open spec fn folder_for(given: Option<Seq<char>>, thread: Option<Seq<char>>) -> SandboxDirView {
    let top = Seq::<Seq<char>>::empty().push(".strobes-ai"@);
    match given {
        Some(d) => SandboxDirView::Given(d),
        None => match thread {
            Some(t) => SandboxDirView::InHome(top.push("sandboxes"@).push(scan::safe_name(t))),
            None => SandboxDirView::InHome(top.push("sandbox"@)),
        },
    }
}

/// The folder of a thread's tools.
pub fn sandbox_dir_for(given: &Option<String>, thread: &Option<String>) -> (r: SandboxDir)
    ensures
        r@ == folder_for(text::opt_view(*given), text::opt_view(*thread)),
{
    match given {
        Some(d) => SandboxDir::Given(d.clone()),
        None => {
            let mut v: Vec<String> = Vec::new();
            v.push(".strobes-ai".to_owned());
            match thread {
                Some(t) => {
                    v.push("sandboxes".to_owned());
                    v.push(scan::safe_name_of(t));
                },
                None => {
                    v.push("sandbox".to_owned());
                },
            }
            SandboxDir::InHome(v)
        },
    }
}

/// The folder of tools without a thread.
pub fn sandbox_dir(given: &Option<String>) -> (r: SandboxDir)
    ensures
        r@ == folder_for(text::opt_view(*given), None),
{
    sandbox_dir_for(given, &None)
}

// ---- which tool ------------------------------------------------------------------------------------

/// What a call of a tool asks for.
pub enum LocalCall {
    Shell(String),
    Code { code: String, language: String },
    Meta,
    /// The list to be kept, as it is written.
    TodoWrite(String),
    TodoRead,
    Browser,
    Unsupported(String),
}

pub enum LocalCallView {
    Shell(Seq<char>),
    Code { code: Seq<char>, language: Seq<char> },
    Meta,
    TodoWrite(Seq<char>),
    TodoRead,
    Browser,
    Unsupported(Seq<char>),
}

impl View for LocalCall {
    type V = LocalCallView;

    open spec fn view(&self) -> LocalCallView {
        match self {
            LocalCall::Shell(c) => LocalCallView::Shell(c@),
            LocalCall::Code { code, language } => LocalCallView::Code {
                code: code@,
                language: language@,
            },
            LocalCall::Meta => LocalCallView::Meta,
            LocalCall::TodoWrite(t) => LocalCallView::TodoWrite(t@),
            LocalCall::TodoRead => LocalCallView::TodoRead,
            LocalCall::Browser => LocalCallView::Browser,
            LocalCall::Unsupported(e) => LocalCallView::Unsupported(e@),
        }
    }
}

/// The list that is to be kept: an empty one where none is given.
pub open spec fn todos_of(input: json::JsonView) -> json::JsonView {
    match json::field(input, "todos"@) {
        Some(t) => t,
        None => json::JsonView::Arr(Seq::empty()),
    }
}

/// What a call of a tool asks for.
pub open spec fn call_of(tool: Seq<char>, input: json::JsonView) -> LocalCallView {
    if tool == "execute_command"@ {
        LocalCallView::Shell(json::text_field(input, "command"@))
    } else if tool == "execute_code"@ {
        LocalCallView::Code {
            code: json::text_field(input, "code"@),
            language: text::text_or(json::as_text(json::field(input, "language"@)), "python"@),
        }
    } else if tool == "workspace_get_meta"@ {
        LocalCallView::Meta
    } else if tool == "todo_write"@ {
        LocalCallView::TodoWrite(json::pretty_text(json::normal(todos_of(input))))
    } else if tool == "todo_read"@ {
        LocalCallView::TodoRead
    } else if text::starts_with(tool, "browser_"@) {
        LocalCallView::Browser
    } else {
        LocalCallView::Unsupported("unsupported local tool in TUI build: "@ + tool)
    }
}

/// What a call of a tool asks for.
pub fn route(tool: &str, input: &Json) -> (r: LocalCall)
    ensures
        r@ == call_of(tool@, input@),
{
    if text::str_eq(tool, "execute_command") {
        LocalCall::Shell(input.get_text("command"))
    } else if text::str_eq(tool, "execute_code") {
        let lang = json::opt_text(input.get("language"));
        LocalCall::Code { code: input.get_text("code"), language: text::opt_or(&lang, "python") }
    } else if text::str_eq(tool, "workspace_get_meta") {
        LocalCall::Meta
    } else if text::str_eq(tool, "todo_write") {
        let t = match input.get("todos") {
            Some(j) => json::to_pretty_text(j),
            None => json::to_pretty_text(&Json::Arr(Vec::new())),
        };
        LocalCall::TodoWrite(t)
    } else if text::str_eq(tool, "todo_read") {
        LocalCall::TodoRead
    } else if text::str_starts_with(tool, "browser_") {
        LocalCall::Browser
    } else {
        let mut e = "unsupported local tool in TUI build: ".to_owned();
        e.push_str(tool);
        LocalCall::Unsupported(e)
    }
}

/// The thread that a call comes from.
pub fn thread_of(input: &Json) -> (r: Option<String>)
    ensures
        text::opt_view(r) == json::as_text(json::field(input@, "_thread_id"@)),
{
    json::opt_text(input.get("_thread_id"))
}

// ---- running code ----------------------------------------------------------------------------------

/// The program that runs a language, and the ending of its files.
pub open spec fn launcher_of(language: Seq<char>, windows: bool) -> Option<(Seq<char>, Seq<char>)> {
    let l = text::lowercase(language);
    if l == "python"@ || l == "python3"@ || l == "py"@ {
        Some(
            (
                if windows {
                    "python"@
                } else {
                    "python3"@
                },
                ".py"@,
            ),
        )
    } else if l == "bash"@ || l == "sh"@ || l == "shell"@ {
        Some(("bash"@, ".sh"@))
    } else if l == "javascript"@ || l == "js"@ || l == "node"@ {
        Some(("node"@, ".js"@))
    } else if l == "ruby"@ {
        Some(("ruby"@, ".rb"@))
    } else {
        None
    }
}

pub open spec fn launcher_view(o: Option<(&'static str, &'static str)>) -> Option<
    (Seq<char>, Seq<char>),
> {
    match o {
        Some(p) => Some((p.0@, p.1@)),
        None => None,
    }
}

/// The program that runs a language, and the ending of its files.
pub fn launcher(language: &str, windows: bool) -> (r: Option<(&'static str, &'static str)>)
    ensures
        launcher_view(r) == launcher_of(language@, windows),
{
    let l = text::to_lowercase(language);
    if text::str_eq(&l, "python") || text::str_eq(&l, "python3") || text::str_eq(&l, "py") {
        if windows {
            Some(("python", ".py"))
        } else {
            Some(("python3", ".py"))
        }
    } else if text::str_eq(&l, "bash") || text::str_eq(&l, "sh") || text::str_eq(&l, "shell") {
        Some(("bash", ".sh"))
    } else if text::str_eq(&l, "javascript") || text::str_eq(&l, "js") || text::str_eq(&l, "node") {
        Some(("node", ".js"))
    } else if text::str_eq(&l, "ruby") {
        Some(("ruby", ".rb"))
    } else {
        None
    }
}

/// What is said of a language that nothing runs.
pub fn unsupported_language(language: &str) -> (r: LocalResult)
    ensures
        r@ == failed("unsupported language: "@ + language@, Some(127)),
{
    let mut e = "unsupported language: ".to_owned();
    e.push_str(language);
    LocalResult::failure(e, Some(127))
}

/// What a program wrote: its output, and below it its errors where there are
/// any, without blanks at the end.
pub open spec fn written(out: Seq<char>, err: Seq<char>) -> Seq<char> {
    pieces::trim_end(
        if pieces::is_blank(err) {
            out
        } else if out.len() == 0 {
            err
        } else {
            out + "\n"@ + err
        },
    )
}

/// The result of a program that ended, from the bytes that it wrote.
pub fn finish(stdout: &Vec<u8>, stderr: &Vec<u8>, code: Option<i32>) -> (r: LocalResult)
    ensures
        r@ == gave(
            written(egress_proxy::utf8_lossy(stdout@), egress_proxy::utf8_lossy(stderr@)),
            code,
        ),
{
    let out = egress_proxy::from_utf8_lossy(stdout);
    let err = egress_proxy::from_utf8_lossy(stderr);
    let t = merge(out, &err);
    LocalResult::of(t, code)
}

/// What a program wrote, in one text.
pub fn merge(out: String, err: &str) -> (r: String)
    ensures
        r@ == written(out@, err@),
{
    let mut t = out;
    if !pieces::str_is_blank(err) {
        if !t.as_str().is_empty() {
            t.push_str("\n");
            t.push_str(err);
        } else {
            t = err.to_owned();
        }
    }
    pieces::str_trim_end(&t)
}

// ---- the machine --------------------------------------------------------------------------------------

/// What is told of the machine.
pub struct Machine {
    pub directory: String,
    pub platform: String,
    pub shell: String,
    pub user: String,
    pub entries: u64,
    pub workspace: Option<String>,
}

pub open spec fn machine_value(m: Machine) -> json::JsonView {
    let o = json::no_entries().push(
        ("working_directory"@, json::JsonView::Str(m.directory@)),
    ).push(("platform"@, json::JsonView::Str(m.platform@))).push(
        ("shell"@, json::JsonView::Str(m.shell@)),
    ).push(("user"@, json::JsonView::Str(m.user@))).push(
        ("entry_count"@, json::number(m.entries as nat)),
    ).push(
        (
            "note"@,
            json::JsonView::Str(
                "Isolated sandbox for one task. Files here are private to this thread."@,
            ),
        ),
    );
    json::JsonView::Obj(
        match m.workspace {
            Some(w) => o.push(("workspace_id"@, json::JsonView::Str(w@))),
            None => o,
        },
    )
}

/// What is told of the machine, as JSON.
pub fn meta_json(m: &Machine) -> (r: String)
    ensures
        r@ == json::compact_text(json::normal(machine_value(*m))),
{
    let mut o = json::no_fields();
    json::put_text(&mut o, "working_directory", &m.directory);
    json::put_text(&mut o, "platform", &m.platform);
    json::put_text(&mut o, "shell", &m.shell);
    json::put_text(&mut o, "user", &m.user);
    json::put_number(&mut o, "entry_count", m.entries);
    json::put_text(
        &mut o,
        "note",
        "Isolated sandbox for one task. Files here are private to this thread.",
    );
    if let Some(w) = &m.workspace {
        json::put_text(&mut o, "workspace_id", w);
    }
    json::to_text(&Json::Obj(o))
}

/// Two threads never share a folder, unless their names only differ in
/// characters that a folder's name cannot have, or one folder is set for all.
pub proof fn threads_do_not_share_folders(a: Seq<char>, b: Seq<char>)
    requires
        scan::safe_name(a) != scan::safe_name(b),
    ensures
        folder_for(None, Some(a)) != folder_for(None, Some(b)),
        folder_for(None, Some(a)) != folder_for(None, None),
{
    let top = Seq::<Seq<char>>::empty().push(".strobes-ai"@);
    let x = top.push("sandboxes"@).push(scan::safe_name(a));
    let y = top.push("sandboxes"@).push(scan::safe_name(b));
    assert(x[2] != y[2]);
    assert(x.len() == 3);
    assert(top.push("sandbox"@).len() == 2);
}

} // verus!
