//! Workflows: their variables, how a run is reported and how it ends, and what
//! the backend is told of them.

use vstd::prelude::*;
use crate::digits;
use crate::editor;
use crate::json;
use crate::json::Json;
use crate::order;
use crate::pieces;
use crate::table;
use crate::table::Table;
use crate::text;

verus! {

broadcast use {
    vstd::seq::group_seq_axioms,
    vstd::map::group_map_axioms,
    vstd::string::group_string_axioms,
    text::views_push,
    text::views_empty,
    json::fields_push,
    json::fields_empty,
    json::values_push,
    json::values_empty,
};

/// A task of a phase.
#[derive(Debug, Clone)]
pub struct TaskDef {
    pub name: String,
    pub prompt: String,
}

/// A phase of a workflow.
#[derive(Debug, Clone)]
pub struct PhaseDef {
    pub name: String,
    pub tasks: Vec<TaskDef>,
}

/// A workflow as its file says it.
#[derive(Debug, Clone)]
pub struct WorkflowDef {
    pub name: String,
    pub description: String,
    pub variables: Table<String>,
    pub phases: Vec<PhaseDef>,
}

/// A workflow to start from.
pub const STARTER: &'static str = "{
  \"name\": \"Web App Pentest\",
  \"description\": \"Automated security assessment\",
  \"variables\": {
    \"TARGET\": \"https://example.com\",
    \"CREDENTIALS\": \"\"
  },
  \"phases\": [
    {
      \"name\": \"Reconnaissance\",
      \"tasks\": [
        {
          \"name\": \"port-scan\",
          \"prompt\": \"Scan ${TARGET} for open ports and services.\"
        },
        {
          \"name\": \"tech-stack\",
          \"prompt\": \"Identify the technology stack of ${TARGET}.\"
        }
      ]
    },
    {
      \"name\": \"Testing\",
      \"tasks\": [
        {
          \"name\": \"vuln-scan\",
          \"prompt\": \"Run a vulnerability scan on ${TARGET} using the recon results.\"
        },
        {
          \"name\": \"auth-test\",
          \"prompt\": \"Test the authentication endpoints of ${TARGET}.\"
        }
      ]
    },
    {
      \"name\": \"Report\",
      \"tasks\": [
        {
          \"name\": \"final-report\",
          \"prompt\": \"Produce a final pentest report for ${TARGET}.\"
        }
      ]
    }
  ]
}
";

// ---- variables ---------------------------------------------------------------------------------

/// What the names stand for.
pub open spec fn values_of(m: Map<Seq<char>, String>) -> Map<Seq<char>, Seq<char>> {
    m.map_values(|s: String| s@)
}

/// A setting `KEY=VALUE`, split at the first equals sign.
pub open spec fn setting_of(kv: Seq<char>) -> Option<(Seq<char>, Seq<char>)> {
    match pieces::index_of(kv, '=') {
        Some(k) => Some((kv.take(k), kv.skip(k + 1))),
        None => None,
    }
}

/// A setting `KEY=VALUE`, split at the first equals sign.
pub fn parse_setting(kv: &str) -> (r: Option<(String, String)>)
    ensures
        match r {
            Some(p) => setting_of(kv@) == Some((p.0@, p.1@)),
            None => setting_of(kv@) is None,
        },
{
    let v = text::chars_of(kv);
    let n: usize = v.len();
    match pieces::chars_index_from(&v, '=', 0) {
        Some(k) => Some((pieces::str_take(kv, k), pieces::str_skip(kv, k + 1))),
        None => None,
    }
}

/// Variables with the settings in them, the last of a name; what is no setting
/// is left out.
pub open spec fn with_settings(
    m: Map<Seq<char>, Seq<char>>,
    v: Seq<Seq<char>>,
) -> Map<Seq<char>, Seq<char>>
    decreases v.len(),
{
    if v.len() == 0 {
        m
    } else {
        let before = with_settings(m, v.drop_last());
        match setting_of(v.last()) {
            Some((k, x)) => before.insert(k, x),
            None => before,
        }
    }
}

fn put(vars: &mut Table<String>, name: &str, value: String)
    requires
        table::in_names_order(old(vars).entries@),
    ensures
        table::in_names_order(final(vars).entries@),
        values_of(final(vars)@) == values_of(old(vars)@).insert(name@, value@),
{
    let ghost before = vars@;
    vars.insert(name, value);
    assert(values_of(before.insert(name@, value)) =~= values_of(before).insert(name@, value@));
}

/// Puts settings into variables; the last of a name counts.
pub fn apply_settings(vars: &mut Table<String>, settings: &Vec<String>)
    requires
        table::in_names_order(old(vars).entries@),
    ensures
        table::in_names_order(final(vars).entries@),
        values_of(final(vars)@) == with_settings(
            values_of(old(vars)@),
            text::views(settings@),
        ),
{
    let ghost start = values_of(vars@);
    let ghost all = text::views(settings@);
    let n: usize = settings.len();
    let mut i: usize = 0;
    assert(all.take(0) =~= Seq::empty());
    while i < n
        invariant
            i <= n,
            n == settings@.len(),
            all == text::views(settings@),
            table::in_names_order(vars.entries@),
            values_of(vars@) == with_settings(start, all.take(i as int)),
        decreases n - i,
    {
        assert(all.take(i + 1).drop_last() =~= all.take(i as int));
        assert(all.take(i + 1).last() == settings@[i as int]@);
        if let Some((k, v)) = parse_setting(&settings[i]) {
            put(vars, &k, v);
        }
        i += 1;
    }
    assert(all.take(n as int) =~= all);
}

/// Variables with the fields of an object in them; a field that is no text
/// counts as empty.
pub open spec fn with_fields(
    m: Map<Seq<char>, Seq<char>>,
    f: Seq<(Seq<char>, json::JsonView)>,
) -> Map<Seq<char>, Seq<char>>
    decreases f.len(),
{
    if f.len() == 0 {
        m
    } else {
        with_fields(m, f.drop_last()).insert(
            f.last().0,
            json::text_or_empty(Some(f.last().1)),
        )
    }
}

/// The variables of a file.
pub fn file_vars(fields: &Vec<(String, Json)>) -> (r: Table<String>)
    ensures
        table::in_names_order(r.entries@),
        values_of(r@) == with_fields(Map::empty(), json::fields(fields@)),
{
    let mut vars: Table<String> = Table::new();
    let ghost all = json::fields(fields@);
    let n: usize = fields.len();
    let mut i: usize = 0;
    proof {
        json::fields_index(fields@);
        assert(all.take(0) =~= Seq::empty());
        assert(values_of(vars@) =~= Map::<Seq<char>, Seq<char>>::empty());
    }
    while i < n
        invariant
            i <= n,
            n == fields@.len(),
            all == json::fields(fields@),
            table::in_names_order(vars.entries@),
            values_of(vars@) == with_fields(Map::empty(), all.take(i as int)),
        decreases n - i,
    {
        proof {
            json::fields_index(fields@);
            assert(all.take(i + 1).drop_last() =~= all.take(i as int));
            assert(all.take(i + 1).last() == all[i as int]);
        }
        let t = json::opt_text_or_empty(Some(&fields[i].1));
        put(&mut vars, &fields[i].0, t);
        i += 1;
    }
    proof {
        json::fields_index(fields@);
        assert(all.take(n as int) =~= all);
    }
    vars
}

/// The names among the first `n` entries of a table that another does not have.
pub open spec fn lacking(e: Seq<(String, String)>, have: Map<Seq<char>, String>, n: int) -> Seq<
    Seq<char>,
>
    decreases n,
{
    if n <= 0 {
        Seq::empty()
    } else if have.dom().contains(e[n - 1].0@) {
        lacking(e, have, n - 1)
    } else {
        lacking(e, have, n - 1).push(e[n - 1].0@)
    }
}

/// The variables of a workflow that have no value, in order.
pub fn missing_vars(wanted: &Table<String>, have: &Table<String>) -> (r: Vec<String>)
    requires
        table::in_names_order(have.entries@),
    ensures
        text::views(r@) == lacking(wanted.entries@, have@, wanted.entries@.len() as int),
{
    let n: usize = wanted.entries.len();
    let mut out: Vec<String> = Vec::new();
    let mut i: usize = 0;
    while i < n
        invariant
            i <= n,
            n == wanted.entries@.len(),
            table::in_names_order(have.entries@),
            text::views(out@) == lacking(wanted.entries@, have@, i as int),
        decreases n - i,
    {
        if have.get(&wanted.entries[i].0).is_none() {
            out.push(wanted.entries[i].0.clone());
        }
        i += 1;
    }
    out
}

/// What is said where variables are missing and nobody can be asked.
pub fn missing_error(names: &Vec<String>) -> (r: String)
    ensures
        r@ == "missing required workflow variable(s): "@ + pieces::join(
            text::views(names@),
            ", "@,
        ) + " — pass with -v KEY=VALUE or --var-file"@,
{
    let mut s = "missing required workflow variable(s): ".to_owned();
    let list = pieces::str_join(names, ", ");
    s.push_str(&list);
    s.push_str(" — pass with -v KEY=VALUE or --var-file");
    s
}

/// A name that says that its value is a secret.
pub open spec fn secret_name(k: Seq<char>) -> bool {
    let l = text::lowercase(k);
    text::contains(l, "key"@) || text::contains(l, "secret"@) || text::contains(l, "token"@)
        || text::contains(l, "password"@) || text::contains(l, "pass"@) || text::contains(
        l,
        "credential"@,
    )
}

/// A name that says that its value is a secret.
pub fn is_secret_name(k: &str) -> (r: bool)
    ensures
        r == secret_name(k@),
{
    let l = text::to_lowercase(k);
    text::str_contains(&l, "key") || text::str_contains(&l, "secret") || text::str_contains(
        &l,
        "token",
    ) || text::str_contains(&l, "password") || text::str_contains(&l, "pass")
        || text::str_contains(&l, "credential")
}

/// What happens to a variable before a run.
pub enum VarStep {
    /// It has a value: this line shows it.
    Given(String),
    /// It is asked for.
    Ask { name: String, default: String, secret: bool },
}

pub enum VarStepView {
    Given(Seq<char>),
    Ask { name: Seq<char>, default: Seq<char>, secret: bool },
}

impl View for VarStep {
    type V = VarStepView;

    open spec fn view(&self) -> VarStepView {
        match self {
            VarStep::Given(l) => VarStepView::Given(l@),
            VarStep::Ask { name, default, secret } => VarStepView::Ask {
                name: name@,
                default: default@,
                secret: *secret,
            },
        }
    }
}

pub open spec fn var_step(name: Seq<char>, default: Seq<char>, have: Map<Seq<char>, String>) -> VarStepView {
    if have.dom().contains(name) {
        VarStepView::Given("  "@ + name + " = "@ + have[name]@)
    } else {
        VarStepView::Ask { name, default, secret: secret_name(name) }
    }
}

pub open spec fn var_steps(v: Seq<VarStep>) -> Seq<VarStepView> {
    v.map_values(|s: VarStep| s@)
}

/// What happens to each variable of a workflow before a run.
pub open spec fn steps_of(e: Seq<(String, String)>, have: Map<Seq<char>, String>) -> Seq<
    VarStepView,
> {
    Seq::new(e.len(), |i: int| var_step(e[i].0@, e[i].1@, have))
}

/// What happens to the variables of a workflow before a run, in order.
pub fn plan_vars(wanted: &Table<String>, have: &Table<String>) -> (r: Vec<VarStep>)
    requires
        table::in_names_order(have.entries@),
    ensures
        var_steps(r@) == steps_of(wanted.entries@, have@),
{
    let ghost want = steps_of(wanted.entries@, have@);
    let n: usize = wanted.entries.len();
    let mut out: Vec<VarStep> = Vec::new();
    let mut i: usize = 0;
    while i < n
        invariant
            i <= n,
            n == wanted.entries@.len(),
            table::in_names_order(have.entries@),
            want == steps_of(wanted.entries@, have@),
            out@.len() == i,
            forall|k: int| 0 <= k < i ==> (#[trigger] out@[k])@ == want[k],
        decreases n - i,
    {
        let name = &wanted.entries[i].0;
        let step = match have.get(name) {
            Some(v) => {
                let mut l = "  ".to_owned();
                l.push_str(name);
                l.push_str(" = ");
                l.push_str(v);
                VarStep::Given(l)
            },
            None => VarStep::Ask {
                name: name.clone(),
                default: wanted.entries[i].1.clone(),
                secret: is_secret_name(name),
            },
        };
        out.push(step);
        i += 1;
    }
    assert(var_steps(out@) =~= want);
    out
}

/// The values of variables as an object, by their names.
pub open spec fn vars_view(e: Seq<(String, String)>) -> json::JsonView {
    json::JsonView::Obj(Seq::new(e.len(), |i: int| (e[i].0@, json::JsonView::Str(e[i].1@))))
}

/// The values of variables as an object.
pub fn vars_to_json(vars: &Table<String>) -> (r: Json)
    ensures
        r@ == vars_view(vars.entries@),
{
    let ghost e = vars.entries@;
    let ghost want = Seq::new(e.len(), |i: int| (e[i].0@, json::JsonView::Str(e[i].1@)));
    let mut o = json::no_fields();
    let n: usize = vars.entries.len();
    let mut i: usize = 0;
    assert(want.take(0) =~= json::no_entries());
    while i < n
        invariant
            i <= n,
            n == e.len(),
            e == vars.entries@,
            want == Seq::new(e.len(), |i: int| (e[i].0@, json::JsonView::Str(e[i].1@))),
            json::fields(o@) == want.take(i as int),
        decreases n - i,
    {
        json::put_text(&mut o, &vars.entries[i].0, &vars.entries[i].1);
        assert(want.take(i + 1) =~= want.take(i as int).push(want[i as int]));
        i += 1;
    }
    assert(want.take(n as int) =~= want);
    Json::Obj(o)
}

// ---- the phases in the backend's words -------------------------------------------------------------

/// A word with its first letter in upper case.
pub open spec fn title_word(w: Seq<char>) -> Seq<char> {
    if w.len() == 0 {
        Seq::empty()
    } else {
        text::uppercase(w.take(1)) + w.skip(1)
    }
}

pub open spec fn title_words(v: Seq<Seq<char>>) -> Seq<Seq<char>> {
    v.map_values(|w: Seq<char>| title_word(w))
}

/// A name in words: hyphens and underscores are blanks, and every word starts
/// in upper case.
pub open spec fn title_of(s: Seq<char>) -> Seq<char> {
    pieces::join(
        title_words(
            pieces::words(pieces::replace_char(pieces::replace_char(s, '-', " "@), '_', " "@)),
        ),
        " "@,
    )
}

/// A name in words, every one of them in title case.
pub fn title_case(s: &str) -> (r: String)
    ensures
        r@ == title_of(s@),
{
    let a = pieces::str_replace_char(s, '-', " ");
    let b = pieces::str_replace_char(&a, '_', " ");
    let words = pieces::str_words(&b);
    let ghost all = text::views(words@);
    let ghost want = title_words(all);
    let n: usize = words.len();
    let mut out: Vec<String> = Vec::new();
    let mut i: usize = 0;
    assert(want.take(0) =~= Seq::empty());
    while i < n
        invariant
            i <= n,
            n == words@.len(),
            all == text::views(words@),
            want == title_words(all),
            text::views(out@) == want.take(i as int),
        decreases n - i,
    {
        let w = &words[i];
        assert(all[i as int] == w@);
        let t = if w.as_str().is_empty() {
            let e = "".to_owned();
            proof {
                reveal_strlit("");
                assert(e@ =~= Seq::<char>::empty());
            }
            e
        } else {
            let first = pieces::str_take(w, 1);
            let mut u = text::to_uppercase(&first);
            let rest = pieces::str_skip(w, 1);
            u.push_str(&rest);
            u
        };
        out.push(t);
        assert(want.take(i + 1) =~= want.take(i as int).push(want[i as int]));
        i += 1;
    }
    assert(want.take(n as int) =~= want);
    pieces::str_join(&out, " ")
}

pub open spec fn task_value(t: TaskDef) -> json::JsonView {
    json::JsonView::Obj(
        json::no_entries().push(("key"@, json::JsonView::Str(t.name@))).push(
            ("title"@, json::JsonView::Str(title_of(t.name@))),
        ).push(("instructions"@, json::JsonView::Str(t.prompt@))).push(
            ("agentType"@, json::JsonView::Str("general"@)),
        ).push(("taskType"@, json::JsonView::Str("agent"@))),
    )
}

pub open spec fn tasks_value(v: Seq<TaskDef>) -> json::JsonView {
    json::JsonView::Arr(Seq::new(v.len(), |i: int| task_value(v[i])))
}

/// Phase `i` of a workflow: all its tasks have to be complete, and a failure
/// does not end it.
pub open spec fn phase_value(p: PhaseDef, i: nat) -> json::JsonView {
    json::JsonView::Obj(
        json::no_entries().push(("key"@, json::JsonView::Str(p.name@))).push(
            ("name"@, json::JsonView::Str(title_of(p.name@))),
        ).push(("order"@, json::number(i))).push(
            ("gateType"@, json::JsonView::Str("all_complete"@)),
        ).push(("failurePolicy"@, json::JsonView::Str("continue"@))).push(
            ("tasks"@, tasks_value(p.tasks@)),
        ),
    )
}

fn tasks_to_json(v: &Vec<TaskDef>) -> (r: Json)
    ensures
        r@ == tasks_value(v@),
{
    let ghost want = Seq::new(v@.len(), |i: int| task_value(v@[i]));
    let n: usize = v.len();
    let mut out: Vec<Json> = Vec::new();
    let mut i: usize = 0;
    assert(want.take(0) =~= Seq::empty());
    while i < n
        invariant
            i <= n,
            n == v@.len(),
            want == Seq::new(v@.len(), |i: int| task_value(v@[i])),
            json::values(out@) == want.take(i as int),
        decreases n - i,
    {
        let mut o = json::no_fields();
        json::put_text(&mut o, "key", &v[i].name);
        let title = title_case(&v[i].name);
        json::put_text(&mut o, "title", &title);
        json::put_text(&mut o, "instructions", &v[i].prompt);
        json::put_text(&mut o, "agentType", "general");
        json::put_text(&mut o, "taskType", "agent");
        out.push(Json::Obj(o));
        assert(want.take(i + 1) =~= want.take(i as int).push(want[i as int]));
        i += 1;
    }
    assert(want.take(n as int) =~= want);
    Json::Arr(out)
}

/// The phases of a workflow as the backend takes them.
pub fn phases_to_json(phases: &Vec<PhaseDef>) -> (r: Json)
    ensures
        r@ == json::JsonView::Arr(
            Seq::new(phases@.len(), |i: int| phase_value(phases@[i], i as nat)),
        ),
{
    let ghost want = Seq::new(phases@.len(), |i: int| phase_value(phases@[i], i as nat));
    let n: usize = phases.len();
    let mut out: Vec<Json> = Vec::new();
    let mut i: usize = 0;
    assert(want.take(0) =~= Seq::empty());
    while i < n
        invariant
            i <= n,
            n == phases@.len(),
            want == Seq::new(phases@.len(), |i: int| phase_value(phases@[i], i as nat)),
            json::values(out@) == want.take(i as int),
        decreases n - i,
    {
        let mut o = json::no_fields();
        json::put_text(&mut o, "key", &phases[i].name);
        let title = title_case(&phases[i].name);
        json::put_text(&mut o, "name", &title);
        json::put_number(&mut o, "order", i as u64);
        json::put_text(&mut o, "gateType", "all_complete");
        json::put_text(&mut o, "failurePolicy", "continue");
        let tasks = tasks_to_json(&phases[i].tasks);
        json::put(&mut o, "tasks", tasks);
        out.push(Json::Obj(o));
        assert(want.take(i + 1) =~= want.take(i as int).push(want[i as int]));
        i += 1;
    }
    assert(want.take(n as int) =~= want);
    Json::Arr(out)
}

// ---- the summary of a workflow --------------------------------------------------------------------

/// The tasks of the first `n` phases.
pub open spec fn tasks_in(v: Seq<PhaseDef>, n: int) -> nat
    decreases n,
{
    if n <= 0 {
        0
    } else {
        tasks_in(v, n - 1) + v[n - 1].tasks@.len()
    }
}

/// The number of tasks of all phases.
pub fn total_tasks(v: &Vec<PhaseDef>) -> (r: usize)
    requires
        tasks_in(v@, v@.len() as int) <= usize::MAX,
    ensures
        r == tasks_in(v@, v@.len() as int),
{
    let n: usize = v.len();
    let mut sum: usize = 0;
    let mut i: usize = 0;
    while i < n
        invariant
            i <= n,
            n == v@.len(),
            sum == tasks_in(v@, i as int),
            tasks_in(v@, n as int) <= usize::MAX,
        decreases n - i,
    {
        proof {
            tasks_grow(v@, i as int + 1, n as int);
        }
        sum += v[i].tasks.len();
        i += 1;
    }
    sum
}

proof fn tasks_grow(v: Seq<PhaseDef>, i: int, n: int)
    requires
        0 <= i <= n,
    ensures
        tasks_in(v, i) <= tasks_in(v, n),
    decreases n,
{
    if i < n {
        tasks_grow(v, i, n - 1);
    }
}

/// What is printed of a workflow before a run.
pub fn summary(def: &WorkflowDef) -> (r: String)
    requires
        tasks_in(def.phases@, def.phases@.len() as int) <= usize::MAX,
    ensures
        r@ == "\n  Workflow : "@ + def.name@ + "\n  Phases   : "@ + digits::dec(def.phases@.len())
            + "  |  Tasks: "@ + digits::dec(tasks_in(def.phases@, def.phases@.len() as int))
            + "\n"@ + (if def.description@.len() == 0 {
            Seq::empty()
        } else {
            "  "@ + def.description@ + "\n"@
        }),
{
    let mut s = "\n  Workflow : ".to_owned();
    s.push_str(&def.name);
    s.push_str("\n  Phases   : ");
    let p = digits::usize_to_string(def.phases.len());
    s.push_str(&p);
    s.push_str("  |  Tasks: ");
    let t = digits::usize_to_string(total_tasks(&def.phases));
    s.push_str(&t);
    s.push_str("\n");
    if !def.description.as_str().is_empty() {
        let mut d = "  ".to_owned();
        d.push_str(&def.description);
        d.push_str("\n");
        s.push_str(&d);
    } else {
        assert(s@ + Seq::<char>::empty() =~= s@);
    }
    s
}

// ---- a run ------------------------------------------------------------------------------------------

/// What a run of a workflow reports.
pub enum WfEvent {
    Log(String),
    WorkspaceReady { id: String, name: String },
    SetupStarted { thread_id: String },
    PhaseStarted { phase: String },
    TaskStarted { phase: String, task: String, thread_id: String },
    TaskOutput { task: String, text: String },
    TaskDone { task: String },
    TaskFailed { task: String, reason: String },
    TaskSkipped { task: String },
    WorkflowDone,
    WorkflowFailed { reason: String },
}

/// A run as far as it decides how the command ends. A run that was resumed does
/// not fail for a task that failed.
pub struct WorkflowRun {
    pub resumed: bool,
    pub failed: bool,
    pub task_failed: bool,
    pub workspace: Option<String>,
}

pub struct RunView {
    pub resumed: bool,
    pub failed: bool,
    pub task_failed: bool,
    pub workspace: Option<Seq<char>>,
}

impl View for WorkflowRun {
    type V = RunView;

    open spec fn view(&self) -> RunView {
        RunView {
            resumed: self.resumed,
            failed: self.failed,
            task_failed: self.task_failed,
            workspace: text::opt_view(self.workspace),
        }
    }
}

/// A thread's id can be shortened.
pub open spec fn printable(e: WfEvent) -> bool {
    match e {
        WfEvent::SetupStarted { thread_id } => editor::can_cut(thread_id@, 8),
        WfEvent::TaskStarted { thread_id, .. } => editor::can_cut(thread_id@, 8),
        _ => true,
    }
}

/// What is printed of an event. The output of a task ends a line only in a run
/// that was resumed.
pub open spec fn printed(resumed: bool, e: WfEvent) -> Seq<char> {
    match e {
        WfEvent::Log(m) => m@ + "\n"@,
        WfEvent::WorkspaceReady { id, name } => "workspace: "@ + name@ + " ["@ + id@ + "]"@ + "\n"@,
        WfEvent::SetupStarted { thread_id } => "▶ workspace-setup ("@ + editor::cut(
            thread_id@,
            8,
        ) + "…)"@ + "\n"@,
        WfEvent::PhaseStarted { phase } => "▶ phase: "@ + phase@ + "\n"@,
        WfEvent::TaskStarted { task, thread_id, .. } => "▶ "@ + task@ + " ("@ + editor::cut(
            thread_id@,
            8,
        ) + "…)"@ + "\n"@,
        WfEvent::TaskOutput { task, text } => "["@ + task@ + "] "@ + text@ + (if resumed {
            "\n"@
        } else {
            Seq::empty()
        }),
        WfEvent::TaskDone { task } => "✔ "@ + task@ + "\n"@,
        WfEvent::TaskFailed { task, reason } => "✗ "@ + task@ + ": "@ + reason@ + "\n"@,
        WfEvent::TaskSkipped { task } => "↷ "@ + task@ + " (skipped)"@ + "\n"@,
        WfEvent::WorkflowDone => "✔ workflow complete"@ + "\n"@,
        WfEvent::WorkflowFailed { reason } => "✗ workflow failed: "@ + reason@ + "\n"@,
    }
}

/// A run after an event.
pub open spec fn after_event(r: RunView, e: WfEvent) -> RunView {
    match e {
        WfEvent::WorkspaceReady { id, .. } => RunView { workspace: Some(id@), ..r },
        WfEvent::TaskFailed { .. } => RunView { task_failed: true, ..r },
        WfEvent::WorkflowFailed { .. } => RunView { failed: true, ..r },
        _ => r,
    }
}

/// Why the command fails once the run is over, where it does.
pub open spec fn failure(r: RunView) -> Option<Seq<char>> {
    if r.failed {
        Some("workflow failed"@)
    } else if r.task_failed && !r.resumed {
        Some("one or more workflow tasks failed"@)
    } else {
        None
    }
}

fn line(a: &str, b: &str, c: &str) -> (r: String)
    ensures
        r@ == a@ + b@ + c@,
{
    let mut s = a.to_owned();
    s.push_str(b);
    s.push_str(c);
    s
}

impl WorkflowRun {
    /// A run that begins.
    pub fn new(resumed: bool) -> (r: WorkflowRun)
        ensures
            r@ == (RunView { resumed, failed: false, task_failed: false, workspace: None }),
    {
        WorkflowRun { resumed, failed: false, task_failed: false, workspace: None }
    }

    /// Takes an event, and says what is printed of it.
    pub fn on_event(&mut self, e: WfEvent) -> (r: String)
        requires
            printable(e),
        ensures
            final(self)@ == after_event(old(self)@, e),
            r@ == printed(old(self)@.resumed, e),
    {
        match e {
            WfEvent::Log(m) => {
                let mut s = m;
                s.push_str("\n");
                s
            },
            WfEvent::WorkspaceReady { id, name } => {
                let mut s = line("workspace: ", &name, " [");
                s.push_str(&id);
                s.push_str("]");
                s.push_str("\n");
                self.workspace = Some(id);
                s
            },
            WfEvent::SetupStarted { thread_id } => {
                let short = editor::str_cut(&thread_id, 8);
                let mut s = line("▶ workspace-setup (", &short, "…)");
                s.push_str("\n");
                s
            },
            WfEvent::PhaseStarted { phase } => line("▶ phase: ", &phase, "\n"),
            WfEvent::TaskStarted { phase: _, task, thread_id } => {
                let short = editor::str_cut(&thread_id, 8);
                let mut s = line("▶ ", &task, " (");
                s.push_str(&short);
                s.push_str("…)");
                s.push_str("\n");
                s
            },
            WfEvent::TaskOutput { task, text } => {
                let mut s = line("[", &task, "] ");
                s.push_str(&text);
                if self.resumed {
                    s.push_str("\n");
                } else {
                    assert(s@ + Seq::<char>::empty() =~= s@);
                }
                s
            },
            WfEvent::TaskDone { task } => line("✔ ", &task, "\n"),
            WfEvent::TaskFailed { task, reason } => {
                self.task_failed = true;
                let mut s = line("✗ ", &task, ": ");
                s.push_str(&reason);
                s.push_str("\n");
                s
            },
            WfEvent::TaskSkipped { task } => {
                let mut s = line("↷ ", &task, " (skipped)");
                s.push_str("\n");
                s
            },
            WfEvent::WorkflowDone => {
                let mut s = "✔ workflow complete".to_owned();
                s.push_str("\n");
                s
            },
            WfEvent::WorkflowFailed { reason } => {
                self.failed = true;
                line("✗ workflow failed: ", &reason, "\n")
            },
        }
    }

    /// Why the command fails once the run is over, where it does.
    pub fn end(&self) -> (r: Option<String>)
        ensures
            text::opt_view(r) == failure(self@),
    {
        if self.failed {
            Some("workflow failed".to_owned())
        } else if self.task_failed && !self.resumed {
            Some("one or more workflow tasks failed".to_owned())
        } else {
            None
        }
    }
}

/// What is said where a run takes too long.
pub fn timed_out(secs: u64) -> (r: String)
    ensures
        r@ == "workflow timed out after "@ + digits::dec(secs as nat) + "s"@,
{
    let n = digits::u64_to_string(secs);
    line("workflow timed out after ", &n, "s")
}

/// All the events of a run, one after another.
pub open spec fn after_events(r: RunView, v: Seq<WfEvent>) -> RunView
    decreases v.len(),
{
    if v.len() == 0 {
        r
    } else {
        after_event(after_events(r, v.drop_last()), v.last())
    }
}

/// A run ends without a failure exactly where no event reported one; a run that
/// was resumed only looks at the workflow as a whole.
pub proof fn runs_fail_iff_reported(v: Seq<WfEvent>, resumed: bool)
    ensures
        ({
            let start = RunView { resumed, failed: false, task_failed: false, workspace: None };
            let end = after_events(start, v);
            &&& end.resumed == resumed
            &&& end.failed <==> exists|i: int| 0 <= i < v.len() && v[i] is WorkflowFailed
            &&& end.task_failed <==> exists|i: int| 0 <= i < v.len() && v[i] is TaskFailed
            &&& failure(end) is None <==> !end.failed && (resumed || !end.task_failed)
        }),
    decreases v.len(),
{
    if v.len() > 0 {
        let d = v.drop_last();
        runs_fail_iff_reported(d, resumed);
        assert forall|i: int| 0 <= i < d.len() implies d[i] == v[i] by {}
        assert(v[v.len() - 1] == v.last());
        if exists|i: int| 0 <= i < d.len() && d[i] is WorkflowFailed {
            let i = choose|i: int| 0 <= i < d.len() && d[i] is WorkflowFailed;
            assert(v[i] is WorkflowFailed);
        }
        if exists|i: int| 0 <= i < d.len() && d[i] is TaskFailed {
            let i = choose|i: int| 0 <= i < d.len() && d[i] is TaskFailed;
            assert(v[i] is TaskFailed);
        }
        if exists|i: int| 0 <= i < v.len() && v[i] is WorkflowFailed {
            let i = choose|i: int| 0 <= i < v.len() && v[i] is WorkflowFailed;
            if i < d.len() {
                assert(d[i] is WorkflowFailed);
            }
        }
        if exists|i: int| 0 <= i < v.len() && v[i] is TaskFailed {
            let i = choose|i: int| 0 <= i < v.len() && v[i] is TaskFailed;
            if i < d.len() {
                assert(d[i] is TaskFailed);
            }
        }
    }
}

/// Setting `i` gives a name a value.
pub open spec fn sets(v: Seq<Seq<char>>, i: int, name: Seq<char>) -> bool {
    setting_of(v[i]) matches Some(p) && p.0 == name
}

/// The value that setting `i` gives.
pub open spec fn value_set(v: Seq<Seq<char>>, i: int) -> Seq<char> {
    match setting_of(v[i]) {
        Some((_, x)) => x,
        None => Seq::empty(),
    }
}

/// A setting counts before the file: a name has the value of the last setting
/// that gives it one, and where none does it keeps what it had.
pub proof fn the_last_setting_counts(
    m: Map<Seq<char>, Seq<char>>,
    v: Seq<Seq<char>>,
    name: Seq<char>,
)
    ensures
        (forall|i: int| 0 <= i < v.len() ==> !sets(v, i, name)) ==> {
            &&& with_settings(m, v).dom().contains(name) == m.dom().contains(name)
            &&& m.dom().contains(name) ==> with_settings(m, v)[name] == m[name]
        },
        forall|k: int|
            0 <= k < v.len() && #[trigger] sets(v, k, name) && (forall|i: int|
                k < i < v.len() ==> !sets(v, i, name)) ==> with_settings(m, v).dom().contains(name)
                && with_settings(m, v)[name] == value_set(v, k),
    decreases v.len(),
{
    if v.len() > 0 {
        let w = v.drop_last();
        the_last_setting_counts(m, w, name);
        assert forall|i: int| 0 <= i < w.len() implies sets(w, i, name) == sets(v, i, name) by {}
        let last = v.len() - 1;
        if forall|i: int| 0 <= i < v.len() ==> !sets(v, i, name) {
            assert(!sets(v, last, name));
        }
        assert forall|k: int|
            0 <= k < v.len() && #[trigger] sets(v, k, name) && (forall|i: int|
                k < i < v.len() ==> !sets(v, i, name)) implies with_settings(
            m,
            v,
        ).dom().contains(name) && with_settings(m, v)[name] == value_set(v, k) by {
            if k < last {
                assert(sets(w, k, name));
                assert(!sets(v, last, name));
            }
        }
    }
}

/// The names that are asked for among the first `n` steps.
pub open spec fn asked(v: Seq<VarStepView>, n: int) -> Seq<Seq<char>>
    decreases n,
{
    if n <= 0 {
        Seq::empty()
    } else {
        match v[n - 1] {
            VarStepView::Ask { name, .. } => asked(v, n - 1).push(name),
            VarStepView::Given(_) => asked(v, n - 1),
        }
    }
}

/// Exactly the variables that are missing are asked for, so that none is where
/// a run may start without asking.
pub proof fn missing_variables_are_asked_for(
    e: Seq<(String, String)>,
    have: Map<Seq<char>, String>,
    n: int,
)
    requires
        0 <= n <= e.len(),
    ensures
        asked(steps_of(e, have), n) == lacking(e, have, n),
    decreases n,
{
    if n > 0 {
        missing_variables_are_asked_for(e, have, n - 1);
    }
}

} // verus!
