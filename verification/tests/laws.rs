//! What holds of several calls together, on chosen values.

use strobes::app::{App, OverlayKind};
use strobes::blocks::{Block, OverlayItem, ToolStatus};
use strobes::chat::{ChatAction, Defer, Key, KeyPress};
use strobes::cli;
use strobes::cli::SignedIn;
use strobes::config::{Config, Overrides};
use strobes::pulse::{AppEvent, StreamItem};
use strobes::table::Table;
use strobes::workflow;
use strobes::workflow::VarStep;

fn app() -> App {
    App::new("t".into(), "http://x".into(), "ten".into(), "org".into())
}

fn key(k: Key) -> KeyPress {
    KeyPress { key: k, ctrl: false, alt_or_shift: false }
}

fn ctrl(c: char) -> KeyPress {
    KeyPress { key: Key::Char(c), ctrl: true, alt_or_shift: false }
}

fn no_overrides() -> Overrides {
    Overrides { base_url: None, org_id: None, master_key: None, deployment: None }
}

fn item(kind: &str) -> StreamItem {
    StreamItem {
        kind: kind.into(),
        text: None,
        agent: None,
        tool_name: None,
        detail: None,
        status: None,
        task_id: None,
        local: false,
    }
}

fn running_tools(a: &App) -> usize {
    a.blocks
        .iter()
        .filter(|b| matches!(b, Block::Tool { status, .. } if *status == ToolStatus::Running))
        .count()
}

#[test]
fn kept_threads_are_read_back() {
    let mut c = Config::new();
    c.fill();
    assert_eq!(cli::sign_in(&mut c, "a", "https://x", "o", "k", ""), SignedIn::NowDefault);
    c.remember("a", "t1", &Some("w1".into()));
    c.remember("b", "t2", &None);
    let env = Overrides { base_url: Some("https://env".into()), ..no_overrides() };
    let p = c.profile_for("a", &env);
    assert_eq!((p.thread_id.as_deref(), p.workspace_id.as_deref()), (Some("t1"), Some("w1")));
    assert_eq!((p.base_url.as_str(), p.master_key.as_str()), ("https://env", "k"));
    assert_eq!(c.profile_for("b", &no_overrides()).thread_id.as_deref(), Some("t2"));
}

#[test]
fn kept_credentials_are_read_back() {
    let mut c = Config::new();
    c.fill();
    assert_eq!(cli::sign_in(&mut c, "a", " https://x/ ", "o", "k", ""), SignedIn::NowDefault);
    assert_eq!(cli::sign_in(&mut c, "b", "https://y", "", "", ""), SignedIn::Incomplete);
    assert_eq!(c.current_profile, "a");
    assert!(c.has_default());
    let p = c.profile_for("a", &no_overrides());
    assert_eq!((p.base_url.as_str(), p.org_id.as_str(), p.master_key.as_str()), ("https://x", "o", "k"));
    assert_eq!(c.profile_for("b", &no_overrides()).base_url, "https://y");
}

#[test]
fn escape_goes_back_step_by_step() {
    let mut a = app();
    assert!(matches!(a.on_key(key(Key::Esc), 10), ChatAction::Defer(Defer::Threads)));
    let row = || vec![OverlayItem { label: "x".into(), detail: vec![], action: None }];
    a.open_overlay(OverlayKind::Threads, "T".into(), row());
    assert!(matches!(a.on_key(key(Key::Esc), 10), ChatAction::Defer(Defer::Workspaces)));
    a.open_overlay(OverlayKind::Workspaces, "W".into(), row());
    assert!(matches!(a.on_key(key(Key::Esc), 10), ChatAction::Quit));
    a.open_overlay(OverlayKind::Files, "F".into(), row());
    assert!(matches!(a.on_key(key(Key::Esc), 10), ChatAction::Nothing));
    assert!(a.overlay.is_none());
}

#[test]
fn toggles_come_back() {
    let mut a = app();
    let (thinking, markdown) = (a.show_thinking, a.markdown);
    for c in ['t', 'r'] {
        a.on_key(ctrl(c), 10);
        assert!((a.show_thinking, a.markdown) != (thinking, markdown));
        a.on_key(ctrl(c), 10);
        assert_eq!((a.show_thinking, a.markdown), (thinking, markdown));
    }
}

#[test]
fn blank_messages_are_not_sent() {
    let mut a = app();
    for c in "  \t".chars() {
        a.on_key(key(Key::Char(c)), 10);
    }
    assert!(matches!(a.on_key(key(Key::Enter), 10), ChatAction::Nothing));
    a.on_key(key(Key::Char('x')), 10);
    assert!(matches!(a.on_key(key(Key::Enter), 10), ChatAction::Submit(t) if t == "x"));
}

#[test]
fn no_tool_blinks_after_a_run() {
    let end: [fn() -> AppEvent; 2] =
        [|| AppEvent::RunFinished("done".into()), || AppEvent::Disconnected("gone".into())];
    for e in end {
        let mut a = app();
        for name in ["grep", "cat"] {
            a.on_stream(&StreamItem { tool_name: Some(name.into()), ..item("tool_start") });
        }
        assert_eq!(running_tools(&a), 2);
        a.on_app_event(e(), 9);
        assert_eq!(running_tools(&a), 0);
        assert!(!a.running);
    }
}

#[test]
fn tasks_are_kept_by_their_id() {
    let mut a = app();
    for (id, text, status) in [("1", "Scan", "created"), ("2", "Report", "created"), ("1", "", "completed")] {
        a.on_app_event(
            AppEvent::Stream(StreamItem {
                task_id: Some(id.into()),
                text: Some(text.into()),
                status: Some(status.into()),
                ..item("task")
            }),
            0,
        );
    }
    let ids: Vec<&str> = a.tasks.iter().map(|t| t.id.as_str()).collect();
    assert_eq!(ids, vec!["1", "2"]);
    assert_eq!(a.tasks[0].title, "Scan");
}

#[test]
fn events_leave_the_message_alone() {
    let mut a = app();
    for c in "né".chars() {
        a.input_insert_char(c);
    }
    let before = a.blocks.len();
    a.on_app_event(AppEvent::Stream(StreamItem { text: Some("hi".into()), ..item("token") }), 0);
    a.on_app_event(AppEvent::Error("e".into()), 0);
    a.on_app_event(AppEvent::RunFinished("done".into()), 0);
    assert_eq!((a.input.as_str(), a.input_cursor), ("né", 3));
    assert!(a.blocks.len() >= before);
}

#[test]
fn settings_count_before_the_file() {
    let mut vars: Table<String> = Table::new();
    vars.insert("A", "file".into());
    vars.insert("B", "file".into());
    let settings = vec!["A=1".to_string(), "nothing".to_string(), "A=x=y".to_string()];
    workflow::apply_settings(&mut vars, &settings);
    assert_eq!(vars.get("A").map(|s| s.as_str()), Some("x=y"));
    assert_eq!(vars.get("B").map(|s| s.as_str()), Some("file"));
    let mut wanted: Table<String> = Table::new();
    wanted.insert("A", "d".into());
    wanted.insert("API_KEY", "".into());
    assert_eq!(workflow::missing_vars(&wanted, &vars), vec!["API_KEY".to_string()]);
    let steps = workflow::plan_vars(&wanted, &vars);
    assert!(matches!(&steps[0], VarStep::Given(l) if l == "  A = x=y"));
    assert!(matches!(&steps[1], VarStep::Ask { name, secret: true, .. } if name == "API_KEY"));
}
