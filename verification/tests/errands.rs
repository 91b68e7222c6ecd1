//! What a chat session fetches, and exported threads.

use strobes::api::{Approval, Finding, HistMsg, Thread, Workspace};
use strobes::app::{App, OverlayKind};
use strobes::blocks::OverlayItem;
use strobes::chat::Defer;
use strobes::choices::LocalFile;
use strobes::errands::{Errand, Reason, ThreadData};
use strobes::json;
use strobes::json::Json;
use strobes::transcript;

fn app() -> App {
    App::new("t".into(), "http://x".into(), "ten".into(), "org".into())
}

fn thread(id: &str, title: &str) -> Thread {
    Thread {
        id: id.into(),
        title: title.into(),
        status: "idle".into(),
        last_message: String::new(),
        workspace_id: None,
        created_at: None,
    }
}

fn last_line(a: &App) -> String {
    a.transcript_plaintext().trim_end().lines().last().unwrap_or("").to_string()
}

fn shown(a: &App) -> (OverlayKind, String, Vec<String>) {
    match &a.overlay {
        Some(o) => (o.kind, o.title.clone(), o.items.iter().map(|i| i.label.clone()).collect()),
        None => panic!("nothing is shown"),
    }
}

#[test]
fn findings_need_a_bound_workspace() {
    let mut a = app();
    let ws = Some("w1".to_string());
    assert!(matches!(a.begin(Defer::Findings, &None), Errand::Workspaces(Reason::Findings)));
    assert!(matches!(a.begin(Defer::Approvals, &None), Errand::Workspaces(Reason::Approvals)));
    assert!(matches!(a.begin(Defer::Findings, &ws), Errand::Findings(w) if w == "w1"));
    assert!(matches!(a.begin(Defer::Approvals, &ws), Errand::Approvals(w) if w == "w1"));
    assert!(a.overlay.is_none());
}

#[test]
fn requests_are_told_apart() {
    let mut a = app();
    assert!(matches!(a.begin(Defer::Workspaces, &None), Errand::Workspaces(Reason::Asked)));
    assert!(matches!(a.begin(Defer::Threads, &None), Errand::Threads));
    assert!(matches!(a.begin(Defer::Files, &None), Errand::Files));
    assert!(matches!(a.begin(Defer::OpenFiles, &None), Errand::OpenFiles));
    assert!(matches!(a.begin(Defer::BindWorkspace("w".into()), &None), Errand::Bind(w) if w == "w"));
    assert!(matches!(a.begin(Defer::SwitchThread("t2".into()), &None), Errand::Open(t) if t == "t2"));
    let new_ws = strobes::panels::NEW_WORKSPACE.to_string();
    assert!(matches!(a.begin(Defer::BindWorkspace(new_ws), &None), Errand::NewWorkspace));
    let new_thread = strobes::panels::NEW_THREAD.to_string();
    assert!(matches!(a.begin(Defer::SwitchThread(new_thread), &None), Errand::NewThread));
    assert!(matches!(a.begin(Defer::Models, &None), Errand::Nothing));
    let (kind, title, labels) = shown(&a);
    assert_eq!(kind, OverlayKind::Models);
    assert_eq!(title, "Select AI model  (^P toggle)");
    assert_eq!(labels.len(), 19);
}

#[test]
fn replies_are_shown() {
    let mut a = app();
    let items = vec![OverlayItem { label: "W".into(), detail: vec![], action: None }];
    a.on_workspaces(Ok(items), Reason::Findings, 0);
    assert_eq!(last_line(&a), "  · pick a workspace, then press ^F for its findings");
    assert_eq!(shown(&a), (OverlayKind::Workspaces, "Workspaces".into(), vec!["W".to_string()]));
    a.on_workspaces(Err("no net".into()), Reason::Asked, 0);
    assert_eq!(last_line(&a), "error: no net");

    a.on_threads(Ok(vec![thread("t", "T")]), "t", true, 0);
    let (kind, title, labels) = shown(&a);
    assert_eq!((kind, title.as_str(), labels.len()), (OverlayKind::Threads, "Threads (this workspace)", 2));
    assert_eq!(labels[0], "➕  New chat (in this workspace)");
    a.on_threads(Ok(vec![]), "t", false, 0);
    assert_eq!(shown(&a).1, "Threads");

    let f = Finding {
        id: 7,
        title: "SQL injection".into(),
        severity_label: "High".into(),
        state_label: "Open".into(),
        cvss: None,
        asset: None,
        description: "d".into(),
        mitigation: "m".into(),
    };
    a.on_findings(Ok(vec![f]), 0);
    assert_eq!((shown(&a).0, shown(&a).2.len()), (OverlayKind::Findings, 1));
    let p = Approval {
        id: "a".into(),
        thread_id: "t".into(),
        state: "pending".into(),
        action_type: "x".into(),
        module: "m".into(),
        summary: "s".into(),
        target_ids: Json::Null,
    };
    a.on_approvals(Ok(vec![p]), 0);
    assert_eq!((shown(&a).0, shown(&a).2.len()), (OverlayKind::Approvals, 1));
    a.on_approvals(Err("e1".into()), 0);
    assert_eq!(last_line(&a), "error: e1");
    a.on_findings(Err("e2".into()), 0);
    assert_eq!(last_line(&a), "error: e2");
}

#[test]
fn folders_and_copies_are_told_of() {
    let mut a = app();
    a.on_files("/d", vec![]);
    assert_eq!(last_line(&a), "  · no local workspace files yet (/d) — bind a workspace to sync");
    assert!(a.overlay.is_none());
    let f = LocalFile { rel: "b.txt".into(), size: "1B".into(), path: "/d/b.txt".into() };
    a.on_files("/d", vec![f]);
    assert_eq!(shown(&a).1, "Files — /d (1 items)");
    a.on_folder("/d", Ok(()), 0);
    assert_eq!(last_line(&a), "  · opened /d in your file manager");
    a.on_folder("/d", Err("no open".into()), 0);
    assert_eq!(last_line(&a), "error: open failed: no open");
    a.on_copied(Ok(()), 0);
    assert_eq!(last_line(&a), "  · copied transcript to clipboard");
    a.on_copied(Err("x".into()), 0);
    assert_eq!(last_line(&a), "error: copy failed: x");
    a.on_failure("switch failed: ", "y", 0);
    assert_eq!(last_line(&a), "error: switch failed: y");
}

#[test]
fn uploads_are_counted() {
    let mut a = app();
    let root = Some("/m".to_string());
    a.on_uploads(&vec![Err("big".to_string())], &root, 0);
    assert_eq!(last_line(&a), "error: upload failed: big");
    a.on_uploads(&vec![Ok("a.txt".to_string()), Err("big".to_string()), Ok("b.txt".to_string())], &root, 0);
    assert_eq!(last_line(&a), "  · ✔ 2 file(s) uploaded to the workspace (synced to /m)");
    assert!(a.transcript_plaintext().contains("⬆ uploaded b.txt"));
    a.on_uploads(&vec![Ok("a.txt".to_string())], &None, 0);
    assert_eq!(last_line(&a), "  · ✔ 1 file(s) uploaded to the workspace");
}

#[test]
fn bound_workspaces_show_their_name() {
    let mut a = app();
    let ws = vec![Workspace { id: "0123456789".into(), name: "Lab".into(), status: "ok".into(), created_at: None }];
    a.on_bound("0123456789", &Some(ws));
    assert!(a.has_workspace);
    assert_eq!(a.workspace_name.as_deref(), Some("Lab"));
    assert_eq!(last_line(&a), "  · ✔ bound workspace 01234567 — ^F findings · ^A approvals");
    a.offer_threads(&Some(vec![]), "t");
    assert_eq!(shown(&a).1, "New chat or existing thread");
    a.offer_threads(&None, "t");
    assert!(a.overlay.is_none());
    a.on_created("New");
    assert_eq!(a.workspace_name.as_deref(), Some("New"));
    assert_eq!(last_line(&a), "  · ✔ created workspace New — opening setup chat…");
}

#[test]
fn opened_threads_keep_the_message_being_written() {
    let mut a = app();
    for c in "draft".chars() {
        a.input_insert_char(c);
    }
    let m = HistMsg { author: "user".into(), text: "hello there".into() };
    let d = ThreadData {
        tokens: Some(12),
        events: None,
        messages: Some(vec![m]),
        run_status: Some("running".into()),
        threads: Some(vec![thread("other", "No"), thread("t9", "Nine")]),
    };
    a.load_thread("t9", d, 0);
    assert_eq!((a.input.as_str(), a.input_cursor), ("draft", 5));
    assert_eq!((a.thread_tokens, a.title.as_str(), a.running), (12, "Nine", true));
    assert_eq!(a.status, "run running (in progress)");
    assert!(a.transcript_plaintext().contains("hello there"));
}

#[test]
fn events_stand_before_messages() {
    let mut a = app();
    let ev = json::parse(r#"{"type":"user_message","data":{"text":"from events"}}"#).unwrap();
    let m = HistMsg { author: "user".into(), text: "from messages".into() };
    let d = ThreadData {
        tokens: None,
        events: Some(vec![ev]),
        messages: Some(vec![m]),
        run_status: None,
        threads: None,
    };
    a.load_thread("t", d, 0);
    assert!(!a.transcript_plaintext().contains("from messages"));
    assert!(!a.running);
}

#[test]
fn threads_are_exported() {
    let t = thread("0123456789", "T");
    let ev = json::parse(r#"{"seq":1}"#).unwrap();
    let m = vec![HistMsg { author: "user".into(), text: "hi".into() }];
    assert!(transcript::export_thread(&t, "w", vec![], &vec![], "md", false).is_none());
    let (body, n) = transcript::export_thread(&t, "w", vec![], &m, "md", false).unwrap();
    assert_eq!((body, n), (transcript::transcript_md_from_messages(&t, "w", &m), 1));
    let (body, n) = transcript::export_thread(&t, "w", vec![ev], &m, "json", false).unwrap();
    assert_eq!((body.as_str(), n), ("[\n  {\n    \"seq\": 1\n  }\n]", 1));
}

#[test]
fn export_formats_are_md_and_json() {
    assert_eq!(transcript::check_format("md"), Ok(()));
    assert_eq!(transcript::check_format("json"), Ok(()));
    assert_eq!(transcript::check_format("pdf"), Err("unknown format 'pdf' — use md or json".to_string()));
}

#[test]
fn exported_threads_are_chosen() {
    let ts = vec![thread("a", ""), thread("b", "")];
    assert_eq!(transcript::threads_to_export(&ts, &None, "w"), Ok(vec![0, 1]));
    assert_eq!(transcript::threads_to_export(&ts, &Some("b".into()), "w"), Ok(vec![1]));
    assert_eq!(
        transcript::threads_to_export(&ts, &Some("c".into()), "w"),
        Err("thread c not found in workspace w".to_string())
    );
}
