//! Exact values: documents, summaries, manifests, editing and lists.

use strobes::app::App;
use strobes::blocks::{OverlayItem, OverlayKind};
use strobes::api::{gql_string, model_name, model_table, read_models, Finding, SlashCmd};
use strobes::cli;
use strobes::config;
use strobes::deps;
use strobes::editor;
use strobes::findings::{DastFinding, IacFinding, SastFinding, ScaFinding};
use strobes::ip::IpAddr;
use strobes::json;
use strobes::json::Json;
use strobes::manifests;
use strobes::osv;
use strobes::packages::Dep;
use strobes::pulse::{AppEvent, StreamItem};
use strobes::report;
use strobes::sarif;
use strobes::session::VERSION;

fn app() -> App {
    App::new("t".into(), "http://x".into(), "ten".into(), "org".into())
}

fn value(text: &str) -> serde_json::Value {
    serde_json::from_str(text).expect("valid JSON")
}

fn of(j: &Json) -> serde_json::Value {
    value(&json::to_text(j))
}

fn shown(v: &Vec<Dep>) -> Vec<String> {
    v.iter()
        .map(|d| format!("{} {} {} {} {}", d.name, d.version, d.ecosystem, d.is_direct, d.manifest))
        .collect()
}

fn item(kind: &str, text: Option<&str>) -> StreamItem {
    StreamItem {
        kind: kind.into(),
        text: text.map(String::from),
        agent: None,
        tool_name: None,
        detail: None,
        status: None,
        task_id: None,
        local: false,
    }
}

fn sca() -> ScaFinding {
    ScaFinding {
        severity: "Medium".into(),
        title: "T".into(),
        cve_id: "CVE-1".into(),
        package: "p".into(),
        version: "1.0".into(),
        is_direct: false,
        via: vec!["a".into(), "b".into()],
        fix_version: "2.0".into(),
        reachable: true,
        reachability_confidence: "likely_reachable".into(),
        description: "D".into(),
        ai_reasoning: "R".into(),
    }
}

fn iac(line: Option<u64>, resource: &str) -> IacFinding {
    IacFinding {
        severity: "low".into(),
        title: "T".into(),
        file: "main.tf".into(),
        line,
        resource: resource.into(),
        iac_type: "terraform".into(),
        description: "D".into(),
        fix: "F".into(),
    }
}

fn dast() -> DastFinding {
    DastFinding {
        severity: "HIGH".into(),
        title: "T".into(),
        url: "http://h/p".into(),
        parameter: "q".into(),
        method: "GET".into(),
        request: "GET /p".into(),
        evidence: "E".into(),
        description: "D".into(),
        fix: "F".into(),
    }
}

fn document(name: &str, rules: &str, results: &str, id: &str) -> serde_json::Value {
    value(&format!(
        "{{\"$schema\":\"https://raw.githubusercontent.com/oasis-tcs/sarif-spec/master/Schemata/sarif-schema-2.1.0.json\",\
         \"version\":\"2.1.0\",\"runs\":[{{\"tool\":{{\"driver\":{{\"name\":\"{name}\",\"version\":\"{VERSION}\",\
         \"informationUri\":\"https://strobes.co\",\"rules\":{rules}}}}},\"results\":{results},\
         \"automationDetails\":{{\"id\":\"{id}\"}}}}]}}"
    ))
}

#[test]
fn code_findings_make_a_document() {
    let f = SastFinding {
        severity: "info".into(),
        title: "T".into(),
        file: "a.rs".into(),
        line: None,
        description: "D".into(),
        fix: String::new(),
    };
    let rules = r#"[{"id":"STROBES-SAST-001","shortDescription":{"text":"T"},"properties":{"severity":"info"}}]"#;
    let results = r#"[{"ruleId":"STROBES-SAST-001","level":"none","message":{"text":"T\n\nD"},
        "locations":[{"physicalLocation":{"artifactLocation":{"uri":"a.rs","uriBaseId":"%SRCROOT%"}}}]}]"#;
    assert_eq!(of(&sarif::sast_to_sarif(&vec![f], "app")), document("Strobes SAST", rules, results, "strobes/sast/app"));
}

#[test]
fn dependency_findings_make_a_document() {
    let rules = r#"[{"id":"STROBES-SCA-001","shortDescription":{"text":"CVE-1 in p"},
        "properties":{"severity":"Medium","cve":"CVE-1"}}]"#;
    let results = r#"[{"ruleId":"STROBES-SCA-001","level":"warning","message":{"text":"CVE-1: T\n\nD"},
        "locations":[{"physicalLocation":{"artifactLocation":{"uri":"p@1.0"}}}],
        "properties":{"severity":"Medium","package":"p","version":"1.0","fix_version":"2.0",
        "reachable":true,"reachability":"likely_reachable"}}]"#;
    assert_eq!(of(&sarif::sca_to_sarif(&vec![sca()], "app")), document("Strobes SCA", rules, results, "strobes/sca/app"));
}

#[test]
fn infrastructure_findings_make_a_document() {
    let rules = r#"[{"id":"STROBES-IAC-001","shortDescription":{"text":"T"},
        "properties":{"severity":"low","iac_type":"terraform"}}]"#;
    let results = r#"[{"ruleId":"STROBES-IAC-001","level":"note","message":{"text":"D\n\nF"},
        "locations":[{"physicalLocation":{"artifactLocation":{"uri":"main.tf"},"region":{"startLine":1}}}],
        "properties":{"resource":"r","iac_type":"terraform"}}]"#;
    assert_eq!(
        of(&sarif::iac_to_sarif(&vec![iac(None, "r")], "app")),
        document("Strobes IaC", rules, results, "strobes/iac/app")
    );
}

#[test]
fn application_findings_make_a_document() {
    let rules = r#"[{"id":"STROBES-DAST-001","shortDescription":{"text":"T"},"properties":{"severity":"HIGH"}}]"#;
    let results = r#"[{"ruleId":"STROBES-DAST-001","level":"error","message":{"text":"T\n\nD"},
        "locations":[{"physicalLocation":{"artifactLocation":{"uri":"http://h/p"}}}],
        "properties":{"severity":"HIGH","parameter":"q","method":"GET","evidence":"E"}}]"#;
    assert_eq!(of(&sarif::dast_to_sarif(&vec![dast()], "app")), document("Strobes DAST", rules, results, "strobes/dast/app"));
}

#[test]
fn structured_outputs_hold_the_scan() {
    let v = value(&sarif::format_sca_output("json", &vec![sca()], 3, "app", "th", 9, false));
    assert_eq!(v["scan_target"], "app");
    assert_eq!(v["thread_id"], "th");
    assert_eq!(v["elapsed_secs"], 9);
    assert_eq!(v["total_cves"], 3);
    assert_eq!(v["skip_ai"], false);
    assert_eq!(v["findings"][0]["via"], value(r#"["a","b"]"#));
    assert_eq!(v["findings"][0]["ai_reasoning"], "R");
    assert_eq!(sarif::format_sca_output("text", &vec![sca()], 3, "app", "th", 9, false), "");
    let s = value(&sarif::format_sca_output("sarif", &vec![sca()], 3, "app", "th", 9, false));
    assert_eq!(s, of(&sarif::sca_to_sarif(&vec![sca()], "app")));
    let f = SastFinding {
        severity: "low".into(),
        title: "T".into(),
        file: "a".into(),
        line: Some(4),
        description: "D".into(),
        fix: "F".into(),
    };
    let v = value(&sarif::format_sast_output("json", &vec![f], "app", &None, "th", 9));
    assert_eq!(v["workspace_id"], serde_json::Value::Null);
    assert_eq!(v["findings"][0]["line"], 4);
}

#[test]
fn summaries_read_line_by_line() {
    let f = SastFinding {
        severity: "high".into(),
        title: "T".into(),
        file: "a.rs".into(),
        line: Some(4),
        description: "one two".into(),
        fix: "F".into(),
    };
    let bar = "\x1b[1m│\x1b[0m";
    let middle = "\x1b[1m├──────────────────────────────────────────────────────────────┤\x1b[0m";
    let bottom = "\x1b[1m└──────────────────────────────────────────────────────────────┘\x1b[0m";
    let s = report::print_sast_summary(&vec![f], "app", 5);
    let lines: Vec<&str> = s.lines().collect();
    assert_eq!(lines[0], "");
    assert_eq!(lines[1], "\x1b[1m┌─ Strobes SAST Scan Results ─────────────────────────────────┐\x1b[0m");
    assert_eq!(lines[2], format!("{bar}  Target : app"));
    assert_eq!(lines[3], format!("{bar}  Time   : 5s"));
    assert_eq!(lines[4], format!("{bar}  Total  : \x1b[1m1\x1b[0m finding(s)"));
    assert_eq!(lines[5], middle);
    let reset = "\x1b[0m";
    let colour = strobes::severity::sast_severity_color("high");
    assert_eq!(lines[6], format!("{bar}  {colour}HIGH{reset:>12}  \x1b[1m1\x1b[0m"));
    assert_eq!(lines[7], middle);
    assert_eq!(lines[8], bar);
    assert_eq!(lines[9], format!("{bar}  \x1b[1m#1\x1b[0m  {colour}[HIGH]\x1b[0m  \x1b[1mT\x1b[0m"));
    assert_eq!(lines[10], format!("{bar}      \x1b[2ma.rs:4\x1b[0m"));
    assert_eq!(lines[11], format!("{bar}      one two"));
    assert_eq!(lines[12], format!("{bar}      \x1b[2mFix: F\x1b[0m"));
    assert_eq!(lines[13], bottom);
    assert_eq!(lines.len(), 14);

    let s = report::print_dast_summary(&vec![dast()], "http://h", 5);
    assert!(s.contains(&format!("{bar}  Total   : \x1b[1m1\x1b[0m finding(s)\n")));
    assert!(s.contains(&format!("{bar}  {colour}HIGH      \x1b[0m  \x1b[1m1\x1b[0m\n")));
    assert!(s.contains(&format!("{bar}      \x1b[2mGET http://h/p\x1b[0m\n")));
    assert!(s.contains(&format!("{bar}      \x1b[2mparam: q\x1b[0m\n")));
    assert!(s.contains(&format!("{bar}      \x1b[2mevidence: E\x1b[0m\n")));
    let s = report::print_dast_summary(&vec![], "http://h", 5);
    assert!(s.contains("No findings — clean scan."));

    let s = report::print_sca_summary(3, &vec![sca()], &vec![sca()], "app", 5, false);
    assert!(s.contains(&format!("{bar}  CVEs    : \x1b[1m3\x1b[0m found in dependencies\n")));
    assert!(s.contains(&format!("{bar}  Impact  : \x1b[1m1\x1b[0m confirmed/likely reachable\n")));
    assert!(s.contains(&format!(
        "{bar}      \x1b[2mp@1.0  via a -> b  \x1b[33m[LIKELY REACHABLE]\x1b[0m\x1b[0m\n"
    )));
    assert!(s.contains(&format!("{bar}      \x1b[2mFix: upgrade to 2.0\x1b[0m\n")));
    assert!(s.contains(&format!("{bar}      \x1b[2mAI: R\x1b[0m\n")));
    let s = report::print_sca_summary(3, &vec![], &vec![], "app", 5, true);
    assert!(!s.contains("Impact"));
    assert!(s.contains("No impactful vulnerabilities found."));

    let s = report::print_iac_summary(&vec![iac(Some(3), "r"), iac(None, "")], "app", 5, 2);
    assert!(s.contains(&format!("{bar}  Files   : \x1b[1m2\x1b[0m IaC file(s) scanned\n")));
    assert!(s.contains(&format!("{bar}      \x1b[2mresource: r  |  main.tf:3\x1b[0m\n")));
    assert!(s.contains(&format!("{bar}      \x1b[2mmain.tf\x1b[0m\n")));
}

#[test]
fn workspace_findings_are_exported() {
    let f = Finding {
        id: 7,
        title: "T".into(),
        severity_label: "Low".into(),
        state_label: "New".into(),
        cvss: None,
        asset: None,
        description: String::new(),
        mitigation: "M".into(),
    };
    let s = value(&sarif::findings_to_sarif(&vec![f.clone()], "w1"));
    let rules = r#"[{"id":"STROBES-7","shortDescription":{"text":"T"},"properties":{"severity":"Low"}}]"#;
    let results = r#"[{"ruleId":"STROBES-7","level":"note","message":{"text":"T"},
        "locations":[{"physicalLocation":{"artifactLocation":{"uri":"unknown","uriBaseId":"%SRCROOT%"}}}],
        "properties":{"severity":"Low","state":"New","cvss":null}}]"#;
    assert_eq!(s, document("Strobes Security Assessment", rules, results, "strobes/workspace/w1"));
    let list = value(&sarif::findings_to_json(&vec![f]));
    assert_eq!(
        list,
        value(
            r#"[{"id":7,"title":"T","severity":"Low","state":"New","cvss":null,"asset":null,
                "description":"","mitigation":"M"}]"#
        )
    );
}

#[test]
fn python_locks_are_read() {
    let v = deps::parse_poetry(
        "[[package]]\nname = \"a\"\nversion = \"1.0\"\n\n[[package]]\nname = \"b\"\nversion = \"2.0\"\n",
    );
    assert_eq!(shown(&v), vec!["a 1.0 PyPI false poetry.lock", "b 2.0 PyPI false poetry.lock"]);
    let v = deps::parse_pipfile(
        r#"{"default":{"requests":{"version":"==2.28.0"},"x":{}},"develop":{"pytest":{"version":"7"}}}"#,
    );
    assert_eq!(shown(&v), vec!["requests 2.28.0 PyPI true Pipfile.lock", "pytest 7 PyPI true Pipfile.lock"]);
    assert!(deps::parse_pipfile("not json").is_empty());
    assert_eq!(deps::split_pep440("flask~=3.0.0"), Some(("flask".into(), "3.0.0".into())));
    assert_eq!(deps::split_pep440(" a >= 1 , < 2"), Some(("a".into(), "1".into())));
    assert_eq!(deps::split_pep440("bare"), None);
    assert_eq!(deps::split_pep440("==1.0"), None);
    assert_eq!(deps::toml_str_field("name = \"x\"", "name"), Some("x".into()));
    assert_eq!(deps::toml_str_field("name = \"x\"", "version"), None);
}

#[test]
fn other_locks_are_read() {
    let v = deps::parse_yarn(
        "# yarn\n\nlodash@^4.0.0:\n  version \"4.17.21\"\n  resolved \"u\"\n\n\"@s/p@^1\":\n  version \"1.2\"\n",
    );
    assert_eq!(shown(&v), vec!["lodash 4.17.21 npm false yarn.lock"]);
    let mut v = deps::parse_gomod("require a.b/c v1.0.0\n");
    deps::parse_gosum(&mut v, "a.b/c v1.0.0 h1:x\na.b/c v1.0.0/go.mod h1:y\nd.e/f v0.2.0 h1:z\n\n");
    assert_eq!(
        shown(&v),
        vec!["a.b/c 1.0.0 Go true go.mod", "a.b/c 1.0.0 Go true go.sum", "d.e/f 0.2.0 Go false go.sum"]
    );
    let v = manifests::parse_gradle(
        "dependencies {\n  implementation 'g:a:1.0'\n  api \"g:b:2.0\"\n  runtimeOnly 'g:c:3.0'\n  compile 'g:d'\n}\n",
    );
    assert_eq!(shown(&v), vec!["g:a 1.0 Maven true build.gradle", "g:b 2.0 Maven true build.gradle"]);
    let v = manifests::parse_nuget(
        r#"{"dependencies":{"net8.0":{"A":{"type":"Direct","resolved":"1.0"},"B":{"type":"Transitive","resolved":"2.0"},"C":{}}}}"#,
    );
    assert_eq!(
        shown(&v),
        vec!["A 1.0 NuGet true packages.lock.json", "B 2.0 NuGet false packages.lock.json"]
    );
}

#[test]
fn vectors_have_a_rough_severity() {
    assert_eq!(osv::cvss_vector_severity("CVSS:3.1/AV:N/AC:L/PR:N/UI:N/S:U/C:H/I:H/A:H"), "critical");
    assert_eq!(osv::cvss_vector_severity("CVSS:3.1/AV:L/AC:L/PR:N/UI:N/S:U/C:H/I:H/A:H"), "high");
    assert_eq!(osv::cvss_vector_severity("CVSS:3.1/AV:N/AC:L/PR:N/UI:N/S:C/C:N/I:H/A:N"), "critical");
    assert_eq!(osv::cvss_vector_severity("CVSS:3.1/AV:N/AC:L/PR:N/UI:N/S:U/C:N/I:N/A:H"), "high");
    assert_eq!(osv::cvss_vector_severity("CVSS:3.1/AV:N/AC:L/PR:N/UI:N/S:U/C:N/I:N/A:L"), "medium");
    assert_eq!(osv::cvss_vector_severity("CVSS:3.1/AV:N/AC:L/PR:N/UI:N/S:U/C:N/I:N/A:N"), "low");
}

#[test]
fn events_are_described() {
    assert_eq!(cli::describe(&AppEvent::Connected, "0"), "connected");
    assert_eq!(cli::describe(&AppEvent::Disconnected("gone".into()), "0"), "disconnected: gone");
    assert_eq!(cli::describe(&AppEvent::RunStarted, "0"), "run started");
    assert_eq!(cli::describe(&AppEvent::RunFinished("ok".into()), "0"), "run finished: ok");
    assert_eq!(cli::describe(&AppEvent::Notice("n".into()), "0"), "notice: n");
    assert_eq!(cli::describe(&AppEvent::Error("e".into()), "0"), "error: e");
    assert_eq!(
        cli::describe(&AppEvent::Credits { tokens: -5, final_run: true }, "0.1250"),
        "credits 0.1250 tokens -5 final=true"
    );
    assert_eq!(
        cli::describe(
            &AppEvent::LocalToolDone { name: "bash".into(), ms: 12, exit: Some(-1), err: Some("a\"b".into()) },
            "0"
        ),
        "local tool bash done 12ms exit=Some(-1) err=Some(\"a\\\"b\")"
    );
    assert_eq!(cli::tool_line("bash", 3, None, &None), "local tool bash done 3ms exit=None err=None");
    let ask = AppEvent::Interrupt { id: "i".into(), title: "a\nb".into(), message: "m".into(), fields: vec![] };
    assert_eq!(cli::describe(&ask, "0"), "interrupt requested id=i title=\"a\\nb\" fields=0");
    assert_eq!(cli::interrupt_line("i", "t", 2), "interrupt requested id=i title=t fields=2");
    let mut i = item("tool_start", Some("x\ty"));
    i.tool_name = Some("bash".into());
    i.local = true;
    i.detail = Some("d".repeat(81));
    let want = format!("event[tool_start] tool=bash LOCAL text=\"x\\ty\" detail=\"{}…\"", "d".repeat(80));
    assert_eq!(cli::describe(&AppEvent::Stream(i), "0"), want);
    assert_eq!(cli::item_line(&item("token", None), &None, &None), "event[token]");
}

#[test]
fn releases_are_named_by_platform() {
    assert_eq!(cli::release_target("macos", "aarch64"), Some("aarch64-apple-darwin"));
    assert_eq!(cli::release_target("macos", "x86_64"), Some("x86_64-apple-darwin"));
    assert_eq!(cli::release_target("linux", "x86_64"), Some("x86_64-unknown-linux-gnu"));
    assert_eq!(cli::release_target("windows", "x86_64"), Some("x86_64-pc-windows-msvc"));
    assert_eq!(cli::release_target("linux", "aarch64"), None);
    assert_eq!(
        cli::release_url("t"),
        "https://github.com/strobes-co/strobes-agents-cli/releases/latest/download/strobes-t.tar.gz"
    );
}

#[test]
fn hosts_are_resolved_from_the_table() {
    let hosts = "127.0.0.1 localhost # loop\n\n10.0.0.5  app.local Alias\nbad other.local\n10.0.0.6 other.local\n";
    assert_eq!(config::hosts_file_lookup(hosts, "alias"), Some(IpAddr::V4(10, 0, 0, 5)));
    assert_eq!(config::hosts_file_lookup(hosts, "other.local"), Some(IpAddr::V4(10, 0, 0, 6)));
    assert_eq!(config::hosts_file_lookup(hosts, "loop"), None);
    let given = |s: &str| Some(s.to_string());
    assert_eq!(config::resolve_host("app.local", &None, hosts), Some(IpAddr::V4(10, 0, 0, 5)));
    assert_eq!(config::resolve_host("localhost", &None, hosts), None);
    assert_eq!(config::resolve_host("h", &given(" 1.2.3.4 "), hosts), Some(IpAddr::V4(1, 2, 3, 4)));
    assert_eq!(config::resolve_host("h", &given("H:1.2.3.4"), hosts), Some(IpAddr::V4(1, 2, 3, 4)));
    assert_eq!(config::resolve_host("app.local", &given("other:1.2.3.4"), hosts), None);
}

#[test]
fn messages_are_edited_by_characters() {
    let mut s = String::from("aé");
    let mut at = s.len();
    editor::insert_char(&mut s, &mut at, '日');
    assert_eq!((s.as_str(), at), ("aé日", 6));
    editor::backspace(&mut s, &mut at);
    assert_eq!((s.as_str(), at), ("aé", 3));
    at = 1;
    editor::delete(&mut s, &mut at);
    assert_eq!((s.as_str(), at), ("a", 1));
    assert_eq!(editor::right("aé", 1), 3);
    assert_eq!(editor::right("aé", 3), 3);
    assert_eq!(editor::wrap("abcde\nf", 2, 2), (vec![(0, 2), (2, 4), (4, 5), (6, 7)], 1, 0));
    assert_eq!(editor::wrap("ab", 2, 2), (vec![(0, 2)], 0, 2));
    assert_eq!(editor::row_count("abcde\nf", 2), 4);
    assert_eq!(editor::row_count("", 2), 1);
}

#[test]
fn the_message_box_grows_with_its_text() {
    let mut a = app();
    assert_eq!(a.input_height(20, 40), 3);
    for _ in 0..30 {
        a.input_insert_char('x');
    }
    assert_eq!(a.input_height(20, 40), 5);
    assert_eq!(a.input_height(20, 7), 4);
    assert_eq!(a.task_panel_width(100), None);
}

#[test]
fn overlays_are_walked_and_filtered() {
    let row = |label: &str, action: Option<&str>| OverlayItem {
        label: label.into(),
        detail: vec!["d".into()],
        action: action.map(String::from),
    };
    let mut a = app();
    assert!(a.overlay_kind().is_none());
    assert!(!a.overlay_esc());
    a.open_overlay(OverlayKind::Threads, "T".into(), vec![row("Alpha", Some("1")), row("Beta", Some("2"))]);
    assert!(a.overlay_searchable());
    a.overlay_move(true);
    assert!(matches!(a.overlay_enter(), Some((OverlayKind::Threads, id)) if id == "2"));
    a.overlay_move(false);
    assert!(matches!(a.overlay_enter(), Some((OverlayKind::Threads, id)) if id == "1"));
    a.overlay_filter_push('B');
    assert!(matches!(a.overlay_enter(), Some((OverlayKind::Threads, id)) if id == "2"));
    a.overlay_filter_push('z');
    assert!(a.overlay_enter().is_none());
    a.overlay_filter_pop();
    a.overlay_filter_pop();
    assert!(matches!(a.overlay_enter(), Some((OverlayKind::Threads, id)) if id == "1"));
    a.close_overlay();
    assert!(a.overlay.is_none());

    a.open_overlay(OverlayKind::Findings, "F".into(), vec![row("Alpha", None)]);
    assert!(!a.overlay_searchable());
    assert!(a.overlay_enter().is_none());
    assert!(a.overlay_detail_open());
    a.overlay_move(false);
    a.overlay_page(false, 10);
    assert_eq!(a.overlay.as_ref().map(|o| o.dscroll), Some(11));
    a.overlay_page(true, 20);
    assert_eq!(a.overlay.as_ref().map(|o| o.dscroll), Some(0));
    assert!(a.overlay_esc());
    assert!(!a.overlay_detail_open());
    assert!(a.overlay_esc());
    assert!(a.overlay.is_none());
}

#[test]
fn commands_are_completed() {
    let cmd = |name: &str| SlashCmd { name: name.into(), description: String::new(), argument_hint: String::new() };
    let mut a = app();
    a.set_slash_commands(vec![cmd("scan"), cmd("Status"), cmd("help")]);
    a.input_insert_char('/');
    a.input_insert_char('s');
    assert_eq!(a.slash_matches(), vec![0, 1]);
    assert!(a.slash_open());
    a.slash_move(true);
    a.slash_complete();
    assert_eq!(a.input, "/Status ");
    assert_eq!(a.input_cursor, 8);
    assert!(!a.slash_open());
}

#[test]
fn the_view_is_scrolled_and_reset() {
    let mut a = app();
    a.settle_scroll(50, 10);
    assert_eq!((a.scroll, a.max_scroll), (40, 40));
    a.page(true, 0);
    assert_eq!(a.scroll, 39);
    a.page(true, 15);
    assert_eq!((a.scroll, a.is_pinned()), (24, true));
    a.settle_scroll(80, 10);
    assert_eq!((a.scroll, a.max_scroll), (24, 70));
    a.scroll_line(false);
    assert_eq!(a.scroll, 25);
    a.jump_to_bottom();
    assert_eq!((a.scroll, a.is_pinned()), (70, false));
    a.set_title("x".into());
    a.set_workspace_name("w".into());
    assert_eq!(a.workspace_name.as_deref(), Some("w"));
    a.set_workspace_name(String::new());
    assert_eq!(a.workspace_name, None);
    a.reset_for_thread("t9".into());
    assert_eq!(a.thread_id, "t9");
    assert_eq!(a.title, "");
    assert!(a.follow && !a.pinned);
    assert!(a.transcript_plaintext().contains("Strobes Agents AI — Ratatui client"));
}

#[test]
fn ports_come_from_the_scheme_or_are_plain() {
    let parts = |port: Option<u16>, known: Option<u16>| strobes::weburl::UrlParts {
        scheme: "x".into(),
        host: Some("h".into()),
        port,
        known_port: known,
        path: "/".into(),
        query: None,
    };
    assert_eq!(strobes::weburl::url_port(&parts(Some(8443), Some(8443))), 8443);
    assert_eq!(strobes::weburl::url_port(&parts(None, Some(443))), 443);
    assert_eq!(strobes::weburl::url_port(&parts(None, None)), 80);
}

#[test]
fn literals_hold_what_they_are_made_from() {
    assert_eq!(gql_string("plain\ntext"), "\"\"\"plain\ntext\"\"\"");
    assert_eq!(gql_string(""), "\"\"\"\"\"\"");
    assert_eq!(gql_string("say \"hi\""), r#""say \"hi\"""#);
    assert_eq!(gql_string("C:\\dir\\"), r#""C:\\dir\\""#);
    assert_eq!(gql_string("\"hi\" there"), "\"\"\"\"hi\" there\"\"\"");
    assert_eq!(gql_string("a\"\"\"b\n\r\t"), r#""a\"\"\"b\n\r\t""#);
}

#[test]
fn models_are_shown_by_their_labels() {
    let read = read_models("# labels\n4 Maker Small 4.5\n 18   Maker Mid 4.6 \nx y\n4 second\n");
    assert_eq!(
        read,
        vec![
            (4, "Maker Small 4.5".to_string()),
            (18, "Maker Mid 4.6".to_string()),
            (4, "second".to_string())
        ]
    );
    assert_eq!(model_name(&read, None), "Default");
    assert_eq!(model_name(&read, Some(0)), "Default");
    assert_eq!(model_name(&read, Some(4)), "Maker Small 4.5");
    assert_eq!(model_name(&read, Some(18)), "Maker Mid 4.6");
    assert_eq!(model_name(&read, Some(99)), "model:99");
    let table = model_table(&read);
    assert_eq!(table.len(), 19);
    assert_eq!(table[0], (0, "Default (org setting)".to_string()));
    assert_eq!(table[1], (4, "Maker Small 4.5".to_string()));
    assert_eq!(table[3], (18, "Maker Mid 4.6".to_string()));
    assert_eq!(table[18], (28, "model:28".to_string()));
    assert_eq!(model_name(&table, Some(18)), "Maker Mid 4.6");
}

#[test]
fn forwarded_heads_differ_in_the_first_line() {
    let head = b"POST http://h.example:8080/a?x=1 HTTP/1.1\r\nHost: h.example\r\nContent-Length: 2\r\n\r\nhi";
    let q = match strobes::egress_proxy::parse_request(head) {
        Ok(q) => q,
        Err(e) => panic!("{e}"),
    };
    assert_eq!((q.host.as_str(), q.port), ("h.example", 8080));
    let want = b"POST /a?x=1 HTTP/1.1\r\nHost: h.example\r\nContent-Length: 2\r\n\r\nhi".to_vec();
    assert_eq!(q.rewritten_head, Some(want));
    let q = match strobes::egress_proxy::parse_request(
        b"GET http://example.com/a/b?x=1 HTTP/1.1\r\nHost: example.com\r\n\r\n",
    ) {
        Ok(q) => q,
        Err(e) => panic!("{e}"),
    };
    assert_eq!(q.rewritten_head, Some(b"GET /a/b?x=1 HTTP/1.1\r\nHost: example.com\r\n\r\n".to_vec()));
}

#[test]
fn patterns_with_separators_leave_the_others_in_force() {
    let patterns: Vec<String> = vec!["*.lock".into(), "gen/**".into(), "[ab]?.txt".into()];
    assert!(strobes::scan::is_left_out("a.lock", &patterns));
    assert!(strobes::scan::is_left_out("b1.txt", &patterns));
    assert!(!strobes::scan::is_left_out("gen", &patterns));
    assert!(!strobes::scan::is_left_out("main.rs", &patterns));
    assert!(strobes::scan::is_left_out("main.rs", &vec!["**".to_string()]));
    assert!(strobes::scan::is_left_out("vendor", &vec![]));
}

#[test]
fn objects_and_lists_are_told_from_other_values() {
    let v = json::parse(r#"{"o":{},"l":[],"n":1}"#).unwrap();
    assert_eq!(json::opt_entries(v.get("o")).map(|f| f.len()), Some(0));
    assert_eq!(json::opt_items(v.get("l")).map(|f| f.len()), Some(0));
    assert!(json::opt_entries(v.get("l")).is_none());
    assert!(json::opt_items(v.get("n")).is_none());
    assert!(json::opt_entries(v.get("x")).is_none());
}

#[test]
fn pnpm_locks_are_read() {
    let v = strobes::lockfiles::parse_pnpm(
        "lockfileVersion: '9.0'\n\nimporters:\n\n  .:\n    dependencies:\n      lodash:\n        specifier: ^4\n\npackages:\n\n  \
         lodash@4.17.21:\n    resolution: {integrity: x}\n\n  '@babel/core@7.1.0':\n    resolution: {}\n\n  \
         /old/1.0.0_react@17.0.2:\n    dev: true\n\n  /@s/older/2.0.0:\n    dev: true\n\n  \
         /peer@3.0.0(react@18.0.0):\n    dev: true\n\nsnapshots:\n\n  other@1.0.0:\n    x: y\n",
    );
    assert_eq!(
        shown(&v),
        vec![
            "lodash 4.17.21 npm false pnpm-lock.yaml",
            "@babel/core 7.1.0 npm false pnpm-lock.yaml",
            "old 1.0.0 npm false pnpm-lock.yaml",
            "@s/older 2.0.0 npm false pnpm-lock.yaml",
            "peer 3.0.0 npm false pnpm-lock.yaml",
        ]
    );
}

#[test]
fn python_project_files_are_read() {
    let v = strobes::lockfiles::parse_pyproject(
        "[project]\nname = \"x\"\ndependencies = [\n  \"requests[socks]==2.31.0\",\n  \
         \"tomli>=1.1; python_version < '3.11'\",\n  'single~=3.0',\n  \"bare\",\n]\n\n[tool.other]\n\
         dependencies = [\"no==1\"]\n\n[tool.poetry.dependencies]\npython = \"^3.9\"\nflask = \"^2.0.1\"\n\
         django = { version = \">=4.2,<5\", extras = [\"a\"] }\nany = \"*\"\n\n\
         [tool.poetry.group.dev.dependencies]\npytest = '7.4'\n",
    );
    assert_eq!(
        shown(&v),
        vec![
            "requests 2.31.0 PyPI true pyproject.toml",
            "tomli 1.1 PyPI true pyproject.toml",
            "single 3.0 PyPI true pyproject.toml",
            "flask 2.0.1 PyPI true pyproject.toml",
            "django 4.2 PyPI true pyproject.toml",
            "pytest 7.4 PyPI true pyproject.toml",
        ]
    );
    let v = strobes::lockfiles::parse_pyproject("[project]\ndependencies = [\"a==1\", \"b==2\"]\nname = \"c==3\"\n");
    assert_eq!(shown(&v), vec!["a 1 PyPI true pyproject.toml", "b 2 PyPI true pyproject.toml"]);
}

#[test]
fn dotnet_dependency_files_are_read() {
    let text = r#"{"libraries":{"App/1.0.0":{"type":"project"},"Newtonsoft.Json/13.0.1":{"type":"package"},"odd":{"type":"package"}}}"#;
    let v = strobes::lockfiles::parse_deps_json(text, "App.deps.json");
    assert_eq!(shown(&v), vec!["Newtonsoft.Json 13.0.1 NuGet false App.deps.json"]);
    assert!(strobes::lockfiles::parse_deps_json("{", "App.deps.json").is_empty());
    assert!(strobes::lockfiles::is_deps_json_file("App.deps.json"));
    assert!(!strobes::lockfiles::is_deps_json_file("package.json"));
}

#[test]
fn the_starting_workflow_has_phases_and_tasks() {
    let v = json::parse(strobes::workflow::STARTER).unwrap();
    assert_eq!(v.get_text("name"), "Web App Pentest");
    assert_eq!(json::opt_items(v.get("phases")).map(|p| p.len()), Some(3));
}

#[test]
fn long_transcripts_are_scrolled_to_their_end() {
    let mut a = app();
    a.scroll = u16::MAX;
    a.max_scroll = 40;
    a.page(false, 20);
    assert_eq!((a.scroll, a.is_pinned()), (40, false));
    a.scroll = u16::MAX - 1;
    a.max_scroll = u16::MAX;
    a.pinned = true;
    a.scroll_line(false);
    assert_eq!((a.scroll, a.is_pinned()), (u16::MAX, false));
}

#[test]
fn seeded_tasks_keep_their_order() {
    let mut a = app();
    let event = |t: &str| json::parse(t).unwrap();
    let events = vec![
        event(r#"{"type":"task.created","taskId":"1","payload":{"title":"one"}}"#),
        event(r#"{"type":"plan.updated","payload":{"tasks":[{"id":"2","title":"two"},{"id":"1","title":"first"}]}}"#),
        event(r#"{"type":"task.completed","taskId":"1","payload":{}}"#),
        event(r#"{"type":"task.started","taskId":"3","payload":{"title":"three"}}"#),
        event(r#"{"type":"task.started","taskId":"4","payload":{}}"#),
    ];
    a.seed_history_events(events, 0);
    let listed: Vec<(String, String)> = a.tasks.iter().map(|t| (t.id.clone(), t.title.clone())).collect();
    let want = [("1", "first"), ("2", "two"), ("3", "three")];
    assert_eq!(listed, want.map(|(a, b)| (a.to_string(), b.to_string())).to_vec());
}

#[test]
fn hits_belong_to_the_package_that_was_asked_for() {
    let reply = json::parse(r#"{"results":[{"vulns":[{"id":"A"}]},{},{"vulns":[{"id":"B"}]}]}"#).unwrap();
    let mut hits: Vec<(usize, String)> = Vec::new();
    osv::read_batch(&mut hits, &reply, 1000);
    assert_eq!(hits, vec![(1000, "A".to_string()), (1002, "B".to_string())]);
}

fn chains(v: &Vec<Dep>) -> Vec<String> {
    v.iter().map(|d| format!("{}@{}{}<{}", d.name, d.version, if d.is_direct { "!" } else { "" }, d.via.join("<"))).collect()
}

#[test]
fn cargo_locks_give_chains() {
    let lock = "[[package]]\nname = \"a\"\nversion = \"1\"\ndependencies = [\n \"b\",\n \"c 2\",\n]\n\n\
        [[package]]\nname = \"b\"\nversion = \"1\"\ndependencies = [\n \"d 1 (registry)\",\n]\n\n\
        [[package]]\nname = \"c\"\nversion = \"1\"\n\n[[package]]\nname = \"c\"\nversion = \"2\"\n\n\
        [[package]]\nname = \"d\"\nversion = \"1\"\ndependencies = [\n \"a\",\n]\n\n\
        [[package]]\nname = \"z\"\nversion = \"9\"\n";
    let v = deps::parse_cargo(lock, "[dependencies]\na = \"1\"\nz = \"9\"\n");
    assert_eq!(chains(&v), vec!["a@1!<", "b@1<a", "c@1<", "c@2<a", "d@1<b<a", "z@9!<"]);
}

#[test]
fn npm_locks_give_chains_by_folder() {
    let lock = r#"{"packages":{
        "":{"dependencies":{"a":"^1","e":"^1"}},
        "node_modules/a":{"version":"1","dependencies":{"b":"^2","c":"^1"}},
        "node_modules/a/node_modules/b":{"version":"2","dependencies":{"c":"^1"}},
        "node_modules/b":{"version":"1"},
        "node_modules/c":{"version":"1","dependencies":{"@s/d":"1"}},
        "node_modules/@s/d":{"version":"1"},
        "node_modules/e":{"version":"1","dependencies":{"missing":"1"}}}}"#;
    let v = deps::parse_package_lock(lock);
    let mut c = chains(&v);
    c.sort();
    let mut want = vec!["a@1!<", "a/node_modules/b@2<a", "b@1<", "c@1<a", "@s/d@1<c<a", "e@1!<"];
    want.sort();
    assert_eq!(c, want);
}

#[test]
fn nuget_locks_give_chains() {
    let v = manifests::parse_nuget(
        r#"{"dependencies":{"net8.0":{"A":{"type":"Direct","resolved":"1","dependencies":{"B":"1"}},"B":{"type":"Transitive","resolved":"1","dependencies":{"C":"1"}},"C":{"type":"Transitive","resolved":"1"}}}}"#,
    );
    assert_eq!(chains(&v), vec!["A@1!<", "B@1<A", "C@1<B<A"]);
}

#[test]
fn searches_end_in_a_known_state() {
    let mut s = strobes::pack::PythonSearch::new("root");
    s.read = strobes::pack::MAX_READ + 1;
    assert!(s.next().is_none());
    assert!(s.stack.is_empty());
    assert_eq!(s.read, strobes::pack::MAX_READ + 1);
}

#[test]
fn ended_workflows_are_told_from_others() {
    check_end("completed", true);
    check_end("failed", true);
    check_end("cancelled", true);
    check_end("running", false);
    check_end("paused", false);
}

fn check_end(status: &str, want: bool) {
    assert_eq!(strobes::remote::has_ended(status), want);
}
