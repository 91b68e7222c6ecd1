//! Runs of the agent: what a command prints and decides while one goes on.

use strobes::api::{Finding, HistMsg, Thread, Workspace, WorkflowState, WorkflowStatePhase, WorkflowTemplate, WorkflowTemplatePhase};
use strobes::app::App;
use strobes::blocks::{Block, TaskStatus, ToolStatus};
use strobes::json;
use strobes::listing;
use strobes::pulse::{AppEvent, Field, StreamItem};
use strobes::remote;
use strobes::remote::{RunRecord, Sync};
use strobes::requests;
use strobes::scan;
use strobes::scan::{CopyDecision, ScanAction, ScanDisplay, ScanEvent, ScanKind, ScanRun};
use strobes::screen;
use strobes::send;
use strobes::send::{Next, SendEvent, SendRun};
use strobes::table::Table;
use strobes::transcript;
use strobes::transcript::Exported;
use strobes::workflow;
use strobes::workflow::{PhaseDef, TaskDef, VarStep, WfEvent, WorkflowDef, WorkflowRun};

fn strings(v: &[&str]) -> Vec<String> {
    v.iter().map(|s| s.to_string()).collect()
}

fn item(kind: &str, text: Option<&str>, tool: Option<&str>, detail: Option<&str>) -> StreamItem {
    StreamItem {
        kind: kind.into(),
        text: text.map(String::from),
        agent: None,
        tool_name: tool.map(String::from),
        detail: detail.map(String::from),
        status: None,
        task_id: None,
        local: false,
    }
}

fn streamed(kind: &str, text: Option<&str>, tool: Option<&str>, detail: Option<&str>) -> SendEvent {
    SendEvent::Event(AppEvent::Stream(item(kind, text, tool, detail)))
}

fn interrupt() -> AppEvent {
    AppEvent::Interrupt {
        id: "i".into(),
        title: "Need OTP".into(),
        message: "now".into(),
        fields: vec![Field { key: "otp".into(), label: "OTP".into(), ftype: "text".into() }],
    }
}

#[test]
fn replies_are_printed_as_they_come() {
    let mut r = SendRun::new(false, false, 9);
    assert_eq!(r.step(streamed("token", Some("hel"), None, None)).out, "hel");
    assert_eq!(r.step(streamed("tool_start", None, Some("ls"), Some("-l"))).out, "\n▶ ls(-l)\n");
    assert_eq!(r.step(streamed("tool_start", None, Some("ls"), None)).out, "▶ ls\n");
    assert_eq!(r.step(streamed("tool_failed", None, Some("ls"), None)).out, "✗ ls: error\n");
    assert_eq!(r.step(streamed("thinking", Some("hm"), None, None)).out, "💭 hm\n");
    assert_eq!(r.step(streamed("token", Some("lo"), None, None)).out, "lo");
    let a = r.step(SendEvent::Event(AppEvent::RunFinished("done".into())));
    assert_eq!(a.out, "\n");
    assert!(matches!(a.next, Next::Done));
}

#[test]
fn reports_hold_what_was_said_and_done() {
    let mut r = SendRun::new(true, true, 9);
    assert_eq!(r.step(streamed("token", Some("hi"), None, None)).out, "");
    r.step(streamed("tool_start", None, Some("a"), Some("x")));
    r.step(streamed("tool_start", None, Some("b"), None));
    r.step(streamed("tool_output", None, Some("a"), Some("out")));
    r.step(streamed("tool_failed", None, Some("b"), Some("bad")));
    let j = json::parse(&r.report("t", &None)).unwrap();
    assert_eq!((j.get_text("status").as_str(), j.get_text("text").as_str()), ("success", "hi"));
    let tools = json::opt_items(j.get("tools")).unwrap();
    assert_eq!((tools[0].get_text("status"), tools[0].get_text("output")), ("done".to_string(), "out".to_string()));
    assert_eq!((tools[1].get_text("status"), tools[1].get_text("error")), ("failed".to_string(), "bad".to_string()));
    let a = r.step(SendEvent::Event(interrupt()));
    assert!(matches!(a.next, Next::Fail(e) if e == "agent requested human input in non-interactive mode: Need OTP"));
    assert_eq!((a.out.as_str(), a.err), ("", None));
    let j = json::parse(&r.report("t", &Some("w".into()))).unwrap();
    assert_eq!((j.get_text("status").as_str(), j.get_text("workspace_id").as_str()), ("interrupted", "w"));
}

#[test]
fn runs_end_in_time_or_with_an_error() {
    let mut r = SendRun::new(false, false, 9);
    let a = r.step(SendEvent::Event(interrupt()));
    assert_eq!(a.out, "\n[interrupt] Need OTP\nnow\n");
    assert!(matches!(a.next, Next::Ask { id, fields } if id == "i" && fields.len() == 1));
    let a = r.step(SendEvent::Event(AppEvent::Error("bad".into())));
    assert_eq!(a.err.as_deref(), Some("error: bad"));
    assert!(matches!(a.next, Next::Fail(e) if e == "agent error: bad"));
    let a = r.step(SendEvent::TimedOut);
    assert!(matches!(a.next, Next::Fail(e) if e == "timed out after 9s"));
    assert!(matches!(r.step(SendEvent::Closed).next, Next::Done));
    assert_eq!(send::thread_title(&None, &"x".repeat(61)), format!("{}…", "x".repeat(60)));
}

fn finding(severity: &str) -> Finding {
    Finding {
        id: 1,
        title: "T".into(),
        severity_label: severity.into(),
        state_label: "Open".into(),
        cvss: None,
        asset: None,
        description: String::new(),
        mitigation: String::new(),
    }
}

#[test]
fn findings_of_a_workspace_fail_a_command() {
    let v = vec![finding("Low"), finding("High")];
    assert!(send::check_findings(&v, "critical").is_none());
    let (lines, error) = send::check_findings(&v, "high").unwrap();
    assert!(lines.contains("T") && error.contains('1') && error.contains("high"));
    let shown = listing::finding_lines(&v, &vec![None, Some("9.8".into())], "0123456789");
    assert_eq!(
        shown,
        strings(&["2 finding(s) in workspace 01234567…:", "  [Low] T · Open", "  [High] T CVSS:9.8 · Open"])
    );
    assert_eq!(listing::finding_lines(&vec![], &vec![], "w"), strings(&["(no findings in workspace w…)"]));
}

#[test]
fn answers_are_found_in_what_was_said() {
    assert_eq!(scan::fenced("a\n```json\n[1]\n```\nb"), Some("[1]".to_string()));
    assert_eq!(scan::fenced("no"), None);
    assert_eq!(scan::answer("x {\"a\": 1} y"), Some("{\"a\": 1}".to_string()));
    assert!(!scan::has_ordered_braces("} {"));
}

#[test]
fn files_are_copied_within_a_limit() {
    assert!(scan::is_left_out("a.min.js", &strings(&["*.min.js"])));
    assert!(!scan::is_left_out("a.js", &strings(&["*.min.js", "["])));
    assert!(matches!(scan::copy_decision("png", 1, 0, 100), CopyDecision::Skip));
    assert!(matches!(scan::copy_decision("rs", scan::MAX_FILE + 1, 0, u64::MAX), CopyDecision::Skip));
    assert!(matches!(scan::copy_decision("rs", 60, 40, 100), CopyDecision::Copy));
    assert!(matches!(scan::copy_decision("rs", 61, 40, 100), CopyDecision::Full));
    assert!(scan::is_listed(&scan::SAST_SKIP_DIRS, "node_modules"));
    assert_eq!(scan::safe_name_of("a-b/ç.c"), "a-b_ç_c");
}

#[test]
fn scans_show_their_last_messages() {
    let mut r = ScanRun::new(ScanKind::Sast, 5, ScanDisplay::new("app", 3));
    for i in 0..9 {
        let e = item("tool_start", None, Some("t"), Some(&i.to_string()));
        assert!(matches!(r.step(ScanEvent::Event(AppEvent::Stream(e))), ScanAction::Render));
    }
    assert_eq!(r.display.messages.len(), scan::SAST_MSG_ROWS);
    assert_eq!(r.display.messages[scan::SAST_MSG_ROWS - 1], "▶ t(8)");
    let first = r.display.render(61, "1.0", 3, "10");
    assert!(first.contains("01:01") && first.contains("▓▓▓\x1b[2m░") && first.contains("10%"));
    let again = r.display.render(62, "1.0", 3, "10");
    assert!(again.len() > first.len());
    r.step(ScanEvent::Event(AppEvent::Stream(item("token", Some("said"), None, None))));
    assert_eq!(r.said, "said");
    assert!(matches!(r.step(ScanEvent::Closed), ScanAction::Finish));
    match r.step(ScanEvent::TimedOut) {
        ScanAction::Fail { note, error } => {
            assert_eq!(error, "timed out after 5s");
            assert_eq!(note.as_deref(), Some("error: scan timed out after 5s — use --timeout to extend"));
        }
        _ => panic!("expected a failure"),
    }
    let mut q = ScanRun::new(ScanKind::Iac, 5, ScanDisplay::new("app", 3));
    match q.step(ScanEvent::Event(AppEvent::Error("bad".into()))) {
        ScanAction::Fail { note, error } => assert_eq!((note, error.as_str()), (None, "bad")),
        _ => panic!("expected a failure"),
    }
}

fn thread(title: &str) -> Thread {
    Thread {
        id: "0123456789".into(),
        title: title.into(),
        status: "idle".into(),
        last_message: String::new(),
        workspace_id: None,
        created_at: Some("today".into()),
    }
}

#[test]
fn titles_become_file_names() {
    assert_eq!(transcript::slugify("  Scan: My App! (v2)  "), "scan-my-app-v2");
    assert_eq!(transcript::slugify("→→"), "untitled");
    assert_eq!(transcript::thread_label(&thread("")), "(untitled) (01234567…)");
    let f = transcript::transcript_file(0, &thread("My App"), "md");
    assert!(f.ends_with(".md") && f.contains("my-app"));
}

#[test]
fn transcripts_are_written() {
    let e = |s: &str| json::parse(s).unwrap();
    let events = vec![
        e("{\"type\": \"message.created\", \"actor\": \"user\", \"payload\": {\"text\": \" hi \"}}"),
        e("{\"type\": \"thinking.completed\", \"payload\": {\"text\": \"a\\nb\"}}"),
        e("{\"type\": \"message.segment.completed\", \"payload\": {\"text\": \"yes\"}}"),
    ];
    let head = "# T\n\n- **Thread:** `0123456789`\n- **Workspace:** `w`\n- **Status:** idle\n- **Created:** today\n\n---\n\n";
    assert_eq!(transcript::transcript_md_header(&thread("T"), "w"), head);
    let all = transcript::transcript_md_from_events(&thread("T"), "w", &events, false);
    assert!(all.starts_with(head));
    assert!(all.contains("\n## 👤 User\n\nhi\n") && all.contains("\n> 💭 a\n> b\n") && all.contains("yes"));
    let few = transcript::transcript_md_from_events(&thread("T"), "w", &events, true);
    assert!(!few.contains("💭"));
    let m = vec![HistMsg { author: "user".into(), text: "hi".into() }, HistMsg { author: "agent".into(), text: "yes".into() }];
    let md = transcript::transcript_md_from_messages(&thread("T"), "w", &m);
    assert!(md.ends_with("\n## 👤 User\n\nhi\n\n## 🤖 agent\n\nyes\n"));
    assert_eq!(transcript::messages_json(&vec![]), "[]");
    let rows = transcript::export_index("N", "w", &vec![Exported { thread: thread("a|b"), count: 3, file: "f.md".into() }]);
    assert!(rows.ends_with("| 1 | a\\|b (01234567…) | idle | 3 | [`f.md`](f.md) |\n"));
    assert_eq!(transcript::next_page(&events, 0), None);
}

fn app() -> App {
    App::new("thread-0123".into(), "http://x".into(), "ten".into(), "org".into())
}

#[test]
fn events_fill_the_transcript() {
    let mut a = app();
    let n = a.blocks.len();
    a.on_app_event(AppEvent::Connected, 0);
    assert!(a.connected);
    a.on_app_event(AppEvent::RunStarted, 0);
    a.on_app_event(AppEvent::Stream(item("token", Some("he"), None, None)), 0);
    a.on_app_event(AppEvent::Stream(item("token", Some("llo"), None, None)), 0);
    assert_eq!(a.stream.as_ref().map(|s| s.buf.as_str()), Some("hello"));
    a.on_app_event(AppEvent::Stream(item("tool_start", None, Some("ls"), Some("-l"))), 0);
    assert!(a.stream.is_none());
    assert!(matches!(&a.blocks[n], Block::Assistant { md, .. } if md == "hello"));
    assert!(a.blocks.iter().any(|b| matches!(b, Block::Tool { status: ToolStatus::Running, .. })));
    a.on_app_event(AppEvent::RunFinished("completed".into()), 5_000_000_000);
    assert!(!a.running);
    assert!(!a.blocks.iter().any(|b| matches!(b, Block::Tool { status: ToolStatus::Running, .. })));
    a.on_app_event(AppEvent::Disconnected("gone".into()), 0);
    assert!(!a.connected);
    assert!(a.transcript_plaintext().contains("hello"));
    assert_eq!(strobes::app::fmt_elapsed(65), "1:05");
}

#[test]
fn earlier_messages_come_back() {
    let mut a = app();
    let n = a.blocks.len();
    a.seed_history(vec![], 0);
    assert_eq!(a.blocks.len(), n);
    a.seed_history(vec![HistMsg { author: "user".into(), text: "hi".into() }], 0);
    assert!(a.blocks.iter().any(|b| matches!(b, Block::User(t) if t == "hi")));
    let e = json::parse("{\"type\": \"message.created\", \"actor\": \"user\", \"payload\": {\"text\": \"again\"}}").unwrap();
    a.seed_history_events(vec![e], 0);
    assert!(a.blocks.iter().any(|b| matches!(b, Block::User(t) if t == "again")));
    a.note_active_run("running");
    assert!(a.running);
    a.upsert_task("1", "one", true, TaskStatus::Running, None);
    a.upsert_task("1", "", false, TaskStatus::Completed, None);
    assert_eq!((a.tasks.len(), a.tasks[0].title.as_str()), (1, "one"));
    assert_eq!(a.tasks[0].status, TaskStatus::Completed);
}

#[test]
fn the_screen_shows_the_session() {
    let mut a = app();
    a.echo_user("hi", 0);
    let lines = a.build_lines(0, "", false);
    let texts: Vec<String> = lines.iter().map(|l| l.text()).collect();
    assert!(texts.contains(&"› hi".to_string()));
    let plain: Vec<String> = a.build_lines(0, "", true).iter().map(|l| l.text()).collect();
    assert_eq!(plain.len(), texts.len());
    assert!(plain.contains(&"> hi".to_string()));
    assert_eq!(screen::win_safe("★ a ✗", true), "* a x");
    assert_eq!(screen::win_safe("★ a ✗", false), "★ a ✗");
    assert!(a.status_line(0).starts_with(" ○ thread thread-0…  ·  "), "{}", a.status_line(0));
    assert_eq!(a.input_title().0, " message (Enter send · ^J newline) ");
    a.running = true;
    assert_eq!(a.input_title().0, " message (Enter send · ^J newline · ^C cancels) ");
    assert_eq!(App::input_text_width(80), 74);
    let p = App::cursor_place(1, 2, 80, 3, 4, 5);
    assert_eq!(p.scroll, 2);
}

fn table(v: &[(&str, &str)]) -> Table<String> {
    let mut t = Table::new();
    for (k, x) in v {
        t.insert(k, x.to_string());
    }
    t
}

#[test]
fn variables_are_collected() {
    let mut vars = table(&[("A", "1"), ("B", "2")]);
    workflow::apply_settings(&mut vars, &strings(&["B=x=y", "C", "D="]));
    assert_eq!(vars.get("B").map(|s| s.as_str()), Some("x=y"));
    assert_eq!(vars.get("D").map(|s| s.as_str()), Some(""));
    assert!(vars.get("C").is_none());
    let j = json::parse("{\"K\": \"v\", \"N\": 7}").unwrap();
    let file = workflow::file_vars(json::opt_entries(Some(&j)).unwrap());
    assert_eq!(file.get("N").map(|s| s.as_str()), Some(""));
    let wanted = table(&[("TARGET", "t"), ("API_KEY", ""), ("A", "0")]);
    let missing = workflow::missing_vars(&wanted, &vars);
    assert_eq!(missing, strings(&["API_KEY", "TARGET"]));
    assert_eq!(
        workflow::missing_error(&missing),
        "missing required workflow variable(s): API_KEY, TARGET — pass with -v KEY=VALUE or --var-file"
    );
    let steps = workflow::plan_vars(&wanted, &vars);
    assert!(matches!(&steps[0], VarStep::Given(l) if l == "  A = 1"));
    assert!(matches!(&steps[1], VarStep::Ask { name, secret: true, .. } if name == "API_KEY"));
    assert!(matches!(&steps[2], VarStep::Ask { default, secret: false, .. } if default == "t"));
    assert_eq!(json::to_text(&workflow::vars_to_json(&file)), "{\"K\":\"v\",\"N\":\"\"}");
}

#[test]
fn workflows_are_described_and_sent() {
    let def = WorkflowDef {
        name: "W".into(),
        description: "about".into(),
        variables: Table::new(),
        phases: vec![PhaseDef { name: "re-con".into(), tasks: vec![TaskDef { name: "find_it".into(), prompt: "go".into() }] }],
    };
    assert_eq!(workflow::total_tasks(&def.phases), 1);
    assert_eq!(workflow::summary(&def), "\n  Workflow : W\n  Phases   : 1  |  Tasks: 1\n  about\n");
    let j = workflow::phases_to_json(&def.phases);
    let phase = &json::opt_items(Some(&j)).unwrap()[0];
    assert_eq!((phase.get_text("key"), phase.get_text("name")), ("re-con".to_string(), "Re Con".to_string()));
    assert_eq!(json::opt_int(phase.get("order")), Some(0));
    let task = &json::opt_items(phase.get("tasks")).unwrap()[0];
    assert_eq!((task.get_text("title"), task.get_text("instructions")), ("Find It".to_string(), "go".to_string()));
}

#[test]
fn workflows_fail_with_their_tasks() {
    let mut r = WorkflowRun::new(false);
    assert_eq!(r.on_event(WfEvent::WorkspaceReady { id: "w".into(), name: "N".into() }), "workspace: N [w]\n");
    assert_eq!(r.workspace.as_deref(), Some("w"));
    assert_eq!(r.on_event(WfEvent::TaskOutput { task: "t".into(), text: "x".into() }), "[t] x");
    assert_eq!(r.end(), None);
    assert_eq!(r.on_event(WfEvent::TaskFailed { task: "t".into(), reason: "y".into() }), "✗ t: y\n");
    assert_eq!(r.end().as_deref(), Some("one or more workflow tasks failed"));
    r.on_event(WfEvent::WorkflowFailed { reason: "z".into() });
    assert_eq!(r.end().as_deref(), Some("workflow failed"));
    let mut again = WorkflowRun::new(true);
    again.on_event(WfEvent::TaskFailed { task: "t".into(), reason: "y".into() });
    assert_eq!(again.end(), None);
    assert_eq!(again.on_event(WfEvent::TaskOutput { task: "t".into(), text: "x".into() }), "[t] x\n");
    assert_eq!(workflow::timed_out(3), "workflow timed out after 3s");
}

fn template() -> WorkflowTemplate {
    WorkflowTemplate {
        slug: "pt".into(),
        name: "Pentest".into(),
        description: "all".into(),
        icon: String::new(),
        version: "1".into(),
        phase_count: 1,
        required_variables: strings(&["A", "B"]),
        phases: vec![WorkflowTemplatePhase { key: "k".into(), name: "Recon".into(), order: 0, task_count: 4 }],
    }
}

#[test]
fn templates_are_listed() {
    let t = template();
    assert_eq!(
        remote::template_lines(&t),
        strings(&["• pt  [Pentest]  1 phases  requires: A, B", "   all", "   0: Recon (4 tasks)", ""])
    );
    assert_eq!(remote::template_label(&t), "• pt  — Pentest  [A, B]");
    let v = vec![t];
    assert_eq!(remote::required_vars(&v, "pt"), strings(&["A", "B"]));
    assert!(remote::required_vars(&v, "other").is_empty());
    assert_eq!(remote::unset_vars(&strings(&["B", "A"]), &table(&[("B", "1")])), strings(&["A"]));
    assert_eq!(remote::required_value("A", " \n").unwrap_err(), "variable 'A' is required and cannot be empty");
    assert_eq!(remote::required_value("A", " x\n").unwrap(), "x");
    assert!(remote::confirmed(" Y\n") && !remote::confirmed("yes"));
    assert!(remote::check_deletable("custom:x").is_ok());
    assert_eq!(remote::check_deletable("pt").unwrap_err(), "only custom: templates can be deleted (got 'pt')");
}

fn state(status: &str) -> WorkflowState {
    WorkflowState {
        workflow_id: "wf".into(),
        template_slug: Some("pt".into()),
        template_version: None,
        status: status.into(),
        current_phase_key: Some("k".into()),
        total_tasks: 4,
        completed_tasks: 1,
        started_at: None,
        completed_at: None,
        phases: vec![WorkflowStatePhase {
            phase_key: "k".into(),
            phase_name: "Recon".into(),
            order: 0,
            status: "running".into(),
            started_at: None,
            completed_at: None,
        }],
    }
}

#[test]
fn states_are_shown() {
    assert_eq!(
        remote::state_lines(&state("running")),
        strings(&[
            "workflow  wf",
            "status    running",
            "template  pt",
            "phase     k",
            "tasks     1/4",
            "\nphases:",
            "       running  k  Recon ←",
        ])
    );
    assert!(matches!(remote::sync_plan(&None), Sync::Create));
    assert!(matches!(remote::sync_plan(&Some(state("running"))), Sync::Edit { .. } | Sync::Refuse(_)));
    let x = RunRecord {
        id: "r".into(),
        workflow_name: "W".into(),
        status: "done".into(),
        done: 1,
        total: 2,
        started_at: "2024-01-02T03:04:05.123Z".into(),
    };
    assert!(remote::history_row(&x).ends_with("1/2     2024-01-02 03:04:05"));
    assert!(remote::history_head().0.starts_with("\nRUN ID"));
}

#[test]
fn requests_hold_what_is_asked() {
    let text = |j| json::to_text(&j);
    assert_eq!(text(requests::thread_body("T", &None)), "{\"title\":\"T\"}");
    assert_eq!(text(requests::thread_body("T", &Some("w".into()))), "{\"title\":\"T\",\"workspace_id\":\"w\"}");
    assert!(requests::succeeded(&json::parse("{\"success\": true}").unwrap()));
    assert!(!requests::succeeded(&json::parse("{\"success\": 1}").unwrap()));
}

#[test]
fn lists_of_the_command_line() {
    let w = Workspace { id: "w1".into(), name: String::new(), status: "ready".into(), created_at: None };
    assert_eq!(listing::workspace_line(&w, &Some("w1".into()), Some(3), "1.00"), "w1   ●  [ready]  3 threads  · ◈ 1.00 cr");
    assert_eq!(listing::workspace_line(&w, &None, None, "0.00"), "w1    [ready]  ? threads  · ◈ 0.00 cr");
    assert!(listing::credits_row(&vec![], "x", "1.0", "2", 3).contains("(deleted)"));
    assert!(listing::credits_line(&None, &None, "1.000", "2k", 3).contains("organization"));
    assert_eq!(listing::upload_prefix(&Some("/a/b/".into())), "a/b/");
    assert_eq!(listing::upload_prefix(&Some("//".into())), "");
    assert_eq!(listing::sync_failure("x HTTP 404").unwrap(), "workspace has no files yet — nothing to sync");
    assert_eq!(listing::sync_failure("x").unwrap_err(), "workspace download failed: x");
    assert_eq!(listing::workspace_for(Some("a".into()), &Some("b".into()), "x").unwrap(), "a");
    assert_eq!(listing::workspace_for(None, &Some("b".into()), "x").unwrap(), "b");
    assert!(listing::workspace_for(None, &None, "x").is_err());
}
