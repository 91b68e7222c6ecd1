//! Keys, pickers and lists of a chat session.

use strobes::api::{Approval, Finding, Thread, Workspace};
use strobes::app::{Answer, App, OverlayKind};
use strobes::blocks::OverlayItem;
use strobes::chat::{ChatAction, Defer, Key, KeyPress};
use strobes::choices;
use strobes::choices::{LocalFile, ThreadNav, Way, WayEvent, WayStep, WorkspaceNav};
use strobes::json;
use strobes::panels;
use strobes::panels::{Opened, WorkspaceStats};
use strobes::picker;
use strobes::picker::{Nav, Picker, Prompted};
use strobes::pulse::{AppEvent, Field};

fn app() -> App {
    App::new("t".into(), "http://x".into(), "ten".into(), "org".into())
}

fn key(k: Key) -> KeyPress {
    KeyPress { key: k, ctrl: false, alt_or_shift: false }
}

fn ctrl(c: char) -> KeyPress {
    KeyPress { key: Key::Char(c), ctrl: true, alt_or_shift: false }
}

fn press(a: &mut App, k: KeyPress) -> ChatAction {
    a.scroll = 0;
    a.max_scroll = 50;
    a.on_key(k, 10)
}

fn strings(v: &[&str]) -> Vec<String> {
    v.iter().map(|s| s.to_string()).collect()
}

fn item(label: &str, action: Option<&str>) -> OverlayItem {
    OverlayItem { label: label.into(), detail: vec![], action: action.map(String::from) }
}

#[test]
fn letters_are_typed_and_sent() {
    let mut a = app();
    for c in " hi ".chars() {
        assert!(matches!(press(&mut a, key(Key::Char(c))), ChatAction::Nothing));
    }
    match press(&mut a, key(Key::Enter)) {
        ChatAction::Submit(t) => {
            assert_eq!(t, "hi");
            assert!(!a.submit_message(&t, false, 5));
        }
        _ => panic!("expected a message"),
    }
    assert!(a.running);
    assert_eq!((a.input.as_str(), a.status.as_str()), ("", "sending…"));
    assert!(matches!(press(&mut a, key(Key::Enter)), ChatAction::Nothing));
}

#[test]
fn files_are_only_uploaded_to_a_workspace() {
    let mut a = app();
    assert!(!a.submit_message("/tmp/x", true, 1));
    let mut b = app();
    b.has_workspace = true;
    assert!(b.submit_message("/tmp/x", true, 1));
    assert!(!b.running);
}

#[test]
fn backspace_takes_a_letter_back() {
    let mut a = app();
    press(&mut a, key(Key::Char('é')));
    press(&mut a, key(Key::Backspace));
    assert_eq!((a.input.as_str(), a.input_cursor), ("", 0));
}

#[test]
fn control_c_cancels_a_run_first() {
    let mut a = app();
    a.running = true;
    assert!(matches!(press(&mut a, ctrl('c')), ChatAction::Cancel));
    a.running = false;
    assert!(matches!(press(&mut a, ctrl('c')), ChatAction::Quit));
}

#[test]
fn control_keys_open_lists() {
    let mut a = app();
    assert!(matches!(press(&mut a, ctrl('w')), ChatAction::Defer(Defer::Workspaces)));
    assert!(matches!(press(&mut a, ctrl('f')), ChatAction::Defer(Defer::Findings)));
    assert!(matches!(press(&mut a, ctrl('s')), ChatAction::Mouse(false)));
    assert!(matches!(press(&mut a, ctrl('s')), ChatAction::Mouse(true)));
    press(&mut a, ctrl('j'));
    assert_eq!(a.input, "\n");
    assert!(matches!(press(&mut a, key(Key::Esc)), ChatAction::Defer(Defer::Threads)));
}

#[test]
fn escape_steps_out_of_overlays() {
    let mut a = app();
    a.open_overlay(OverlayKind::Threads, "Threads".into(), vec![item("one", Some("1"))]);
    assert!(matches!(press(&mut a, key(Key::Esc)), ChatAction::Defer(Defer::Workspaces)));
    a.open_overlay(OverlayKind::Workspaces, "Workspaces".into(), vec![item("one", Some("1"))]);
    assert!(matches!(press(&mut a, key(Key::Esc)), ChatAction::Quit));
    a.open_overlay(OverlayKind::Findings, "Findings".into(), vec![item("one", Some("1"))]);
    assert!(matches!(press(&mut a, key(Key::Esc)), ChatAction::Nothing));
    assert!(!a.overlay_active());
}

#[test]
fn lists_are_searched_and_chosen_from() {
    let mut a = app();
    let items = vec![item("Alpha", Some("1")), item("Beta", Some("2"))];
    a.open_overlay(OverlayKind::Threads, "Threads".into(), items);
    press(&mut a, key(Key::Char('B')));
    match press(&mut a, key(Key::Enter)) {
        ChatAction::Defer(Defer::SwitchThread(id)) => assert_eq!(id, "2"),
        _ => panic!("expected a thread"),
    }
}

#[test]
fn models_are_chosen_by_their_number() {
    let mut a = app();
    let models = strobes::api::model_table(&vec![(4, "Maker Small 4".to_string())]);
    a.set_models(strobes::api::model_table(&vec![(4, "Maker Small 4".to_string())]));
    a.open_overlay(OverlayKind::Models, "m".into(), choices::model_items(&models, None));
    press(&mut a, key(Key::Down));
    match press(&mut a, key(Key::Enter)) {
        ChatAction::SetModel(m) => assert_eq!(m, Some(4)),
        _ => panic!("expected a model"),
    }
    assert_eq!(a.current_model(), Some(4));
    assert!(a.transcript_plaintext().contains("⚙ model → Maker Small 4"));
    assert!(!a.overlay_active());
    let items = choices::model_items(&models, Some(4));
    assert_eq!(items.len(), 19);
    assert_eq!(items[1].label, "Maker Small 4 ●");
    assert_eq!(items[0].label, "Default (org setting)");
    assert_eq!(choices::model_items(&models, None)[0].label, "Default (org setting) ●");
}

#[test]
fn forms_are_filled_in_field_by_field() {
    let mut a = app();
    let fields = vec![
        Field { key: "otp".into(), label: "OTP".into(), ftype: "text".into() },
        Field { key: "ok".into(), label: "OK".into(), ftype: "checkbox".into() },
    ];
    a.on_app_event(
        AppEvent::Interrupt { id: "i1".into(), title: "T".into(), message: "M".into(), fields },
        0,
    );
    assert!(a.awaiting_input());
    for c in "654321".chars() {
        press(&mut a, key(Key::Char(c)));
    }
    assert!(matches!(press(&mut a, key(Key::Enter)), ChatAction::Nothing));
    press(&mut a, key(Key::Char('y')));
    match press(&mut a, key(Key::Enter)) {
        ChatAction::Respond { id, answers } => {
            assert_eq!(id, "i1");
            assert_eq!(answers.len(), 2);
            assert_eq!(answers[0].0, "otp");
            assert!(matches!(&answers[0].1, Answer::Text(t) if t == "654321"));
            assert!(matches!(answers[1].1, Answer::Checked(true)));
        }
        _ => panic!("expected the answers"),
    }
    assert!(!a.awaiting_input());
}

#[test]
fn the_wheel_and_the_clock_move_things() {
    let mut a = app();
    a.max_scroll = 50;
    a.scroll = 20;
    a.on_wheel(true);
    assert_eq!(a.scroll, 17);
    a.on_wheel(false);
    assert_eq!(a.scroll, 20);
    let s = a.spinner;
    a.on_tick();
    assert_eq!(a.spinner, s);
    a.running = true;
    a.on_tick();
    assert_eq!(a.spinner, s.wrapping_add(1));
}

#[test]
fn pickers_skip_headers() {
    let mut p = match Picker::new(strings(&["A", "one", "B", "two"]), Some(vec![false, true, false, true])) {
        Ok(p) => p,
        Err(_) => panic!("expected a picker"),
    };
    assert_eq!(p.sel, 1);
    p.settle();
    assert_eq!(p.on_key(key(Key::Down)), None);
    assert_eq!(p.sel, 3);
    p.on_key(key(Key::Down));
    assert_eq!(p.sel, 1);
    p.on_key(key(Key::Up));
    assert_eq!(p.on_key(key(Key::Enter)), Some(Nav::Item(3)));
    assert_eq!(p.on_key(key(Key::Tab)), Some(Nav::Shortcut(3)));
    assert_eq!(p.on_key(key(Key::Esc)), Some(Nav::Back));
    assert_eq!(p.on_key(ctrl('c')), Some(Nav::Quit));
}

#[test]
fn pickers_search() {
    let mut p = match Picker::new(strings(&["Alpha", "Beta", "Gamma"]), None) {
        Ok(p) => p,
        Err(_) => panic!("expected a picker"),
    };
    p.on_key(key(Key::Char('M')));
    p.settle();
    assert_eq!(p.visible(), vec![2]);
    assert_eq!(p.title("Pick"), " Pick (1) — search: M ");
    assert_eq!(p.on_key(key(Key::Right)), Some(Nav::Item(2)));
    p.on_key(key(Key::Backspace));
    assert_eq!(p.title("Pick"), " Pick (3) ");
    assert!(matches!(Picker::new(vec![], None), Err(Nav::Back)));
}

#[test]
fn lines_are_prompted_for() {
    let mut s = String::from("ab");
    assert!(matches!(picker::prompt_key(&mut s, key(Key::Backspace)), Prompted::Going));
    assert!(matches!(picker::prompt_key(&mut s, key(Key::Char('x'))), Prompted::Going));
    assert!(matches!(picker::prompt_key(&mut s, key(Key::Enter)), Prompted::Entered(t) if t == "ax"));
    assert!(matches!(picker::prompt_key(&mut s, key(Key::Esc)), Prompted::Cancelled));
    assert_eq!(picker::loading_line(11, "wait"), "   ⠙ wait");
    let b = picker::banner_lines("one\n\ntwo");
    assert_eq!(b[b.len() - 1].spans[0].content, "   two");
    assert_eq!(b[b.len() - 2].spans[0].content, "   one");
}

#[test]
fn dropped_paths_are_told_from_words() {
    assert_eq!(choices::parse_dragged_paths("/tmp/a\\ b '/x/c d' \"~/e\""), Some(strings(&["/tmp/a b", "/x/c d", "~/e"])));
    assert_eq!(choices::parse_dragged_paths("hello world"), None);
    assert_eq!(choices::parse_dragged_paths("/tmp/a word"), None);
    assert_eq!(choices::parse_dragged_paths("   "), None);
    assert_eq!(choices::home_rest("~/x/y"), Some("x/y".to_string()));
    assert_eq!(choices::home_rest("/x"), None);
    assert_eq!(choices::str_shell_words("'a b' c"), strings(&["a b", "c"]));
}

#[test]
fn files_are_listed_by_their_paths() {
    let f = |r: &str| LocalFile { rel: r.into(), size: "1B".into(), path: format!("/d/{r}") };
    let v = choices::file_items(vec![f("b"), f("a/c"), f("a")]);
    let labels: Vec<&str> = v.iter().map(|i| i.label.as_str()).collect();
    assert_eq!(labels, vec!["a  · 1B", "a/c  · 1B", "b  · 1B"]);
    assert_eq!(v[2].detail[2], "path: /d/b");
    assert_eq!(choices::files_title("/d", 3), "Files — /d (3 items)");
}

fn workspace(id: &str, name: &str) -> Workspace {
    Workspace { id: id.into(), name: name.into(), status: "ready".into(), created_at: None }
}

fn thread(id: &str, title: &str) -> Thread {
    Thread {
        id: id.into(),
        title: title.into(),
        status: "idle".into(),
        last_message: "last".into(),
        workspace_id: None,
        created_at: None,
    }
}

#[test]
fn workspaces_opened_most_come_first() {
    let o = |count, last| Opened { count, last };
    let v = vec![o(0, 0), o(2, 5), o(0, 0), o(2, 9), o(7, 1)];
    assert_eq!(panels::most_opened(&v), vec![4, 3, 1, 0, 2]);
}

#[test]
fn workspaces_are_labelled() {
    let ws = vec![workspace("w1", ""), workspace("w2", "Two")];
    let l = choices::workspace_labels(&ws, &vec![0, 3], &vec![None, Some("completed".into())], &Some("w2".into()));
    assert_eq!(
        l,
        strings(&[
            "➕  New workspace",
            "↪  No workspace (all threads)",
            "(unnamed)   [ready]",
            "Two   [ready]  ✓  · ↻ ×3  ⚙ done",
        ])
    );
    let stats = |t| WorkspaceStats { threads: t, credits: "1.50".into(), credits_exact: "1.500".into(), opens: 3 };
    let items = panels::workspace_items(&ws, &vec![stats(None), stats(Some(4))], &Some("w2".into()));
    assert_eq!(items[0].action.as_deref(), Some("__new_ws__"));
    assert_eq!(items[1].label, "(unnamed)  · ready · ? threads · ◈ 1.50 cr · ↻ recent ×3");
    assert_eq!(items[2].label, "Two ●  · ready · 4 threads · ◈ 1.50 cr · ↻ recent ×3");
    assert_eq!(items[2].detail[4], "opened 3× from this machine");
}

#[test]
fn threads_are_labelled() {
    let ts = vec![thread("1", ""), thread("2", "Two")];
    assert_eq!(
        choices::thread_labels(&ts),
        strings(&["➕  New thread", "(untitled)   [idle]  — last", "Two   [idle]  — last"])
    );
    let items = panels::thread_items(&ts, "2", true);
    assert_eq!(items[0].label, "➕  New chat (in this workspace)");
    assert_eq!(items[2].label, "Two ●  · idle  last");
    assert_eq!(choices::title_of_thread(&ts, "2"), Some("Two".to_string()));
    assert_eq!(choices::title_of_thread(&ts, "1"), None);
}

#[test]
fn choices_in_pickers_mean_things() {
    let flows = vec![true, false];
    assert_eq!(choices::choose_workspace(Nav::Item(0), &flows), WorkspaceNav::Create);
    assert_eq!(choices::choose_workspace(Nav::Item(1), &flows), WorkspaceNav::Unscoped);
    assert_eq!(choices::choose_workspace(Nav::Item(3), &flows), WorkspaceNav::Pick(1));
    assert_eq!(choices::choose_workspace(Nav::Shortcut(2), &flows), WorkspaceNav::Watch(0));
    assert_eq!(choices::choose_workspace(Nav::Shortcut(3), &flows), WorkspaceNav::Again);
    assert_eq!(choices::choose_workspace(Nav::Back, &flows), WorkspaceNav::Quit);
    assert_eq!(choices::choose_thread(Nav::Item(2)), ThreadNav::Pick(1));
    assert_eq!(choices::choose_thread(Nav::Shortcut(2)), ThreadNav::Back);
    assert_eq!(choices::new_workspace_name("  "), "CLI Workspace");
    assert_eq!(choices::setup_prompt(&Some(" do it ".into())), Some("do it".to_string()));
    assert_eq!(choices::setup_prompt(&Some(" ".into())), None);
}

#[test]
fn the_way_into_a_chat() {
    let (_, s) = Way::start(Some("t".into()), None, &None, false);
    assert!(matches!(s, WayStep::Open { thread, message: None } if thread == "t"));
    let (_, s) = Way::start(Some("t".into()), None, &None, true);
    assert!(matches!(s, WayStep::PickWorkspace));
    let (mut w, s) = Way::start(None, Some("w".into()), &None, false);
    assert!(matches!(s, WayStep::PickThread));
    assert!(matches!(w.step(WayEvent::Back), WayStep::Leave));
    let (mut w, _) = Way::start(None, None, &Some("b".into()), false);
    assert_eq!(w.workspace.as_deref(), Some("b"));
    assert!(matches!(w.step(WayEvent::Workspace(None)), WayStep::PickThread));
    assert_eq!(w.workspace, None);
    assert!(matches!(w.step(WayEvent::Back), WayStep::PickWorkspace));
    let made = WayEvent::Created { id: "n".into(), setup_thread: Some("s".into()), prompt: Some("p".into()) };
    match w.step(made) {
        WayStep::Open { thread, message } => assert_eq!((thread.as_str(), message.as_deref()), ("s", Some("p"))),
        _ => panic!("expected the thread"),
    }
    assert_eq!(w.workspace.as_deref(), Some("n"));
}

#[test]
fn findings_and_approvals_are_listed() {
    let f = Finding {
        id: 7,
        title: "SQL".into(),
        severity_label: "High".into(),
        state_label: "Open".into(),
        cvss: Some("9.8".into()),
        asset: Some("db".into()),
        description: "a\nb".into(),
        mitigation: " ".into(),
    };
    let v = panels::finding_items(&vec![f]);
    assert_eq!(v[0].label, "[High] SQL  · Open");
    assert_eq!(
        v[0].detail,
        strings(&[
            "SQL",
            "",
            "Severity: High    State: Open    CVSS: 9.8",
            "Asset: db",
            "Finding ID: 7",
            "",
            "── Description ──",
            "a",
            "b",
        ])
    );
    let a = Approval {
        id: "a1".into(),
        thread_id: "t".into(),
        state: "pending".into(),
        action_type: "scan".into(),
        module: "m".into(),
        summary: "do".into(),
        target_ids: json::parse("[1, 2]").unwrap(),
    };
    let v = panels::approval_items(&vec![a]);
    assert_eq!(v[0].label, "[pending] scan  · do");
    assert_eq!(v[0].detail[v[0].detail.len() - 1], "Targets: [1,2]");
}

#[test]
fn contexts_say_where_one_is() {
    let c = choices::workspace_context("auth", "0123456789", &None, 2, "1.00", 3, 4);
    assert_eq!(c, "auth\n⊞ workspace: 01234567…\n2 threads  ·  ◈ 1.00 credits  ·  ⚠ 3 findings  ·  4 files");
    assert_eq!(choices::unscoped_context("auth"), "auth\n⊞ workspace: (none — all threads)");
}
