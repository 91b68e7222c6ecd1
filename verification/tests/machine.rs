//! The user's machine: packs, sandboxes, tools, the bridge and the browser.

use strobes::analyzer_registry;
use strobes::analyzer_registry::{AnalyzerCreds, ScanType};
use strobes::bridge;
use strobes::bridge::{Shell, Wait};
use strobes::browser;
use strobes::browser::{Capture, Pool};
use strobes::chrome;
use strobes::chrome::BrowserStep;
use strobes::config::Profile;
use strobes::json;
use strobes::json::Json;
use strobes::local;
use strobes::local::{LocalCall, Machine, SandboxDir};
use strobes::pack;
use strobes::pack::{Entry, PackFacts, PythonSearch};
use strobes::procsandbox;
use strobes::procsandbox::Host;

fn strings(v: &[&str]) -> Vec<String> {
    v.iter().map(|s| s.to_string()).collect()
}

#[test]
fn packs_are_looked_for_in_order() {
    let v = pack::candidates(&Some("/p".into()), &Some(" ".into()), &Some("/h".into()), "linux-x86_64");
    let shown: Vec<String> = v.iter().map(|c| format!("{} {}", c.base, c.parts.join("/"))).collect();
    assert_eq!(
        shown,
        strings(&["/p ", "/h .strobes-ai/pack/linux-x86_64", "/h .strobes-shell-agent/pack/linux-x86_64"])
    );
    assert_eq!(pack::find_pack(&None, &vec![false, true, true]), Some(1));
    assert_eq!(pack::find_pack(&Some("off".into()), &vec![true]), Some(0));
    assert_eq!(pack::find_pack(&Some("YES".into()), &vec![true]), None);
    assert!(!pack::truthy(" No "));
}

#[test]
fn interpreters_are_searched_for() {
    let e = |path: &str, name: &str, is_dir| Entry { path: path.into(), name: Some(name.into()), is_dir };
    let mut s = PythonSearch::new("/p/python");
    assert_eq!(s.next(), Some("/p/python".to_string()));
    let top = vec![e("/p/python/cpython-3.12", "cpython-3.12", true), e("/p/python/doc", "doc", true)];
    assert_eq!(s.on_entries(&top, false), None);
    assert_eq!(s.next(), Some("/p/python/cpython-3.12".to_string()));
    assert_eq!(s.on_entries(&vec![e("/b", "bin", true)], false), None);
    assert_eq!(s.next(), Some("/b".to_string()));
    assert_eq!(s.on_entries(&vec![e("/b/python3", "python3", false)], false), Some("/b/python3".to_string()));
    assert_eq!(s.next(), None);
    let mut long = PythonSearch { stack: strings(&["a"]), read: 513 };
    assert_eq!(long.next(), None);
}

#[test]
fn packs_come_before_the_machines_tools() {
    let p = pack::pack_path_prefix(&Some("/p/bin".into()), &Some("/p/py".into()), false);
    assert_eq!(p.as_deref(), Some("/p/bin:/p/py"));
    assert_eq!(pack::path_with_pack(&p, &Some("/usr/bin".into()), false).as_deref(), Some("/p/bin:/p/py:/usr/bin"));
    assert_eq!(pack::path_with_pack(&p, &None, false).as_deref(), Some("/p/bin:/p/py"));
    assert_eq!(pack::pack_path_prefix(&None, &None, true), None);
    assert_eq!(pack::pack_bin("/p/bin".into(), false), None);
    assert_eq!(pack::status_line(&None), "pack        (none — agent uses host tools)");
    let f = PackFacts { dir: "/p".into(), tools: 7, python: true };
    assert_eq!(pack::status_line(&Some(f)), "pack        /p (7 tools, python: bundled)");
}

#[test]
fn digests_decide_on_downloads() {
    let bytes = b"abc".to_vec();
    let good = "BA7816BF8F01CFEA414140DE5DAE2223B00361A396177A9CB410FF61F20015AD  pack.tar.gz\n";
    assert_eq!(pack::verify_download(good, "pack.tar.gz", &bytes, "it"), None);
    assert_eq!(pack::verify_download("", "pack.tar.gz", &bytes, "it"), None);
    let e = pack::verify_download("00", "pack.tar.gz", &bytes, "it").unwrap();
    assert_eq!(e, "checksum mismatch for pack.tar.gz: expected 00, got ba7816bf8f01cfea414140de5dae2223b00361a396177a9cb410ff61f20015ad. Refusing to install — it would run as you.");
    assert_eq!(pack::to_hex(&vec![0, 15, 255]), "000fff");
}

#[test]
fn pack_releases_are_found() {
    let j = json::parse("[{\"tag_name\": \"v0.4.0\"}, {\"tag_name\": \"pack-v0.2.0\"}, {\"tag_name\": \"pack-v0.1.0\"}]");
    assert_eq!(pack::newest_pack_tag(&j), "pack-v0.2.0");
    assert_eq!(pack::newest_pack_tag(&None), "pack-v0.1.0");
    assert_eq!(pack::newest_pack_tag(&json::parse("{}")), "pack-v0.1.0");
    let f = pack::pack_file("linux-x86_64");
    assert_eq!(pack::pack_url("https://h/x//", &f), "https://h/x/strobes-sandbox-pack-linux-x86_64.tar.gz");
    assert!(pack::unavailable("t", "404", &f).contains("pack not available for t (404)"));
}

#[test]
fn commands_are_confined_or_refused() {
    let args = strings(&["-c", "ls"]);
    let mac = Host::Macos { tool: true, profile: "/t/p.sb".into(), proxy_url: "http://127.0.0.1:9".into() };
    let c = match procsandbox::confine("bash", &args, &mac) {
        Ok(c) => c,
        Err(e) => panic!("{}", e.message()),
    };
    assert_eq!(c.program, "sandbox-exec");
    assert_eq!(c.args, strings(&["-f", "/t/p.sb", "--", "bash", "-c", "ls"]));
    assert_eq!(c.env.len(), 6);
    assert!(c.env.iter().all(|e| e.1 == "http://127.0.0.1:9"));
    let linux = Host::Linux { tool: true, socket: Some("/s".into()), port: 99, relay: "/strobes".into() };
    let c = match procsandbox::confine("bash", &args, &linux) {
        Ok(c) => c,
        Err(e) => panic!("{}", e.message()),
    };
    assert_eq!(c.program, "bwrap");
    assert_eq!(c.args[0], "--unshare-net");
    assert_eq!(c.args[c.args.len() - 3..].to_vec(), strings(&["bash", "-c", "ls"]));
    assert_eq!(c.env[0], ("HTTP_PROXY".to_string(), "http://127.0.0.1:99".to_string()));
    let refused = [
        Host::Macos { tool: false, profile: String::new(), proxy_url: String::new() },
        Host::Linux { tool: false, socket: None, port: 1, relay: String::new() },
        Host::Linux { tool: true, socket: None, port: 1, relay: String::new() },
        Host::Other,
    ];
    for h in refused {
        match procsandbox::confine("bash", &args, &h) {
            Ok(_) => panic!("a command ran free"),
            Err(e) => assert!(e.message().starts_with("sandbox unavailable: ")),
        }
    }
    assert!(procsandbox::seatbelt_profile(99).contains("\"localhost:99\""));
    assert_eq!(procsandbox::relay_program("/x/strobes", &Some("strobes".into()), &Some("/y".into())), "/x/strobes");
    assert_eq!(procsandbox::relay_program("/x/t-1", &Some("t-1".into()), &Some("/y".into())), "/y");
}

#[test]
fn tools_have_folders_of_their_own() {
    match local::sandbox_dir_for(&None, &Some("a/b c".into())) {
        SandboxDir::InHome(v) => assert_eq!(v, strings(&[".strobes-ai", "sandboxes", "a_b_c"])),
        SandboxDir::Given(_) => panic!("expected the home folder"),
    }
    match local::sandbox_dir(&None) {
        SandboxDir::InHome(v) => assert_eq!(v, strings(&[".strobes-ai", "sandbox"])),
        SandboxDir::Given(_) => panic!("expected the home folder"),
    }
    assert!(matches!(local::sandbox_dir_for(&Some("/x".into()), &Some("t".into())), SandboxDir::Given(d) if d == "/x"));
}

#[test]
fn tool_calls_are_routed() {
    let j = json::parse("{\"command\": \"ls\", \"code\": \"1\", \"_thread_id\": \"t\", \"todos\": [1]}").unwrap();
    assert!(matches!(local::route("execute_command", &j), LocalCall::Shell(c) if c == "ls"));
    assert!(matches!(local::route("execute_code", &j), LocalCall::Code { code, language } if code == "1" && language == "python"));
    assert!(matches!(local::route("todo_write", &j), LocalCall::TodoWrite(t) if t == "[\n  1\n]"));
    assert!(matches!(local::route("todo_write", &Json::Null), LocalCall::TodoWrite(t) if t == "[]"));
    assert!(matches!(local::route("todo_read", &j), LocalCall::TodoRead));
    assert!(matches!(local::route("browser_click", &j), LocalCall::Browser));
    assert!(matches!(local::route("fly", &j), LocalCall::Unsupported(e) if e == "unsupported local tool in TUI build: fly"));
    assert_eq!(local::thread_of(&j), Some("t".to_string()));
}

#[test]
fn programs_and_their_output() {
    assert_eq!(local::launcher("Python3", false), Some(("python3", ".py")));
    assert_eq!(local::launcher("py", true), Some(("python", ".py")));
    assert_eq!(local::launcher("JS", false), Some(("node", ".js")));
    assert_eq!(local::launcher("cobol", false), None);
    assert_eq!(local::unsupported_language("cobol").exit_code, Some(127));
    let r = local::finish(&b"out\n".to_vec(), &b"err \n".to_vec(), Some(1));
    assert_eq!((r.output.as_str(), r.exit_code), ("out\n\nerr", Some(1)));
    let r = local::finish(&vec![0xff, b'a'], &b" ".to_vec(), None);
    assert_eq!(r.output, "\u{fffd}a");
    let m = Machine {
        directory: "/d".into(),
        platform: "linux".into(),
        shell: "sh".into(),
        user: "u".into(),
        entries: 3,
        workspace: None,
    };
    let j = json::parse(&local::meta_json(&m)).unwrap();
    assert_eq!(j.get_text("working_directory"), "/d");
    assert_eq!(json::opt_int(j.get("entry_count")), Some(3));
    assert!(j.get("workspace_id").is_none());
}

#[test]
fn registries_have_passwords_and_images() {
    assert_eq!(analyzer_registry::docker_password("QVdTOnNlY3JldA==").unwrap(), "secret");
    assert_eq!(analyzer_registry::docker_password("!").unwrap_err(), "decoding ECR authorization token");
    assert_eq!(analyzer_registry::docker_password("/w==").unwrap_err(), "ECR authorization token is not UTF-8");
    assert_eq!(analyzer_registry::docker_password("QVdT").unwrap_err(), "unexpected ECR authorization token format");
    let c = AnalyzerCreds {
        access_key_id: String::new(),
        secret_access_key: String::new(),
        session_token: String::new(),
        expiration: String::new(),
        region: String::new(),
        registry_url: "r.example".into(),
        repository_filter: String::new(),
    };
    assert_eq!(analyzer_registry::image_ref(&c, ScanType::Iac, "latest"), "r.example/analyzers/checkovanalyzer:latest");
    assert_eq!(analyzer_registry::login_args(&c)[4], "r.example");
    assert_eq!(analyzer_registry::run_args(&strings(&["x"])), strings(&["run", "--rm", "x"]));
    assert_eq!(ScanType::Sca.label(), "sca");
    assert_eq!(ScanType::Dast.repo(), "analyzers/zapanalyzer");
    let p = Profile { org_id: "o".into(), ..Default::default() };
    assert_eq!(
        analyzer_registry::credentials_url("https://m", &p),
        "https://m/api/v1/organizations/o/analyzer-registry/credentials/"
    );
    assert_eq!(analyzer_registry::credentials_error(403, "no"), "analyzer-registry credentials request failed: HTTP 403 no");
}

#[test]
fn bridges_are_published_for_some_machines() {
    assert_eq!(bridge::asset_name("linux", "x86_64").unwrap(), "strobes-shell-agent-linux-amd64");
    assert_eq!(bridge::asset_name("windows", "x86_64").unwrap(), "strobes-shell-agent-windows-amd64.exe");
    assert_eq!(bridge::asset_name("macos", "aarch64").unwrap(), "strobes-shell-agent-macos-arm64");
    assert!(bridge::asset_name("macos", "x86_64").unwrap_err().contains("Intel Mac"));
    assert_eq!(bridge::asset_name("linux", "mips").unwrap_err(), "no strobes-bridge binary published for arch 'mips'");
    assert_eq!(bridge::asset_name("plan9", "x86_64").unwrap_err(), "no strobes-bridge binary published for OS 'plan9'");
    let j = json::parse("{\"assets\": [{\"name\": \"a\", \"browser_download_url\": \"u\"}, {\"name\": \"b\"}]}").unwrap();
    assert_eq!(bridge::download_url(&j, "a").unwrap(), "u");
    assert_eq!(bridge::download_url(&j, "b").unwrap_err(), "asset 'b' has no download URL");
    assert_eq!(bridge::download_url(&j, "c").unwrap_err(), "no asset named 'c' in the latest strobes-bridge release");
    assert_eq!(bridge::download_url(&Json::Null, "c").unwrap_err(), "release response had no assets");
    assert!(bridge::verify_bridge("00", "a", &vec![]).unwrap().ends_with("this binary would run as you."));
}

#[test]
fn bridges_are_waited_for() {
    let s = |id: &str, t: &str, c| Shell { id: id.into(), name: "n".into(), shell_type: t.into(), bridge_id: None, bridge_connected: c };
    let v = vec![s("1", "cloud", Some(true)), s("2", "bridge", None), s("3", "bridge", Some(true))];
    assert_eq!(bridge::connected_bridge(&v), Some(2));
    assert!(matches!(bridge::poll(&v, "3", true, 45, "l"), Wait::Connected));
    assert!(matches!(bridge::poll(&v, "2", false, 45, "l"), Wait::Again));
    match bridge::poll(&v, "2", true, 45, "l") {
        Wait::TimedOut(e) => assert_eq!(e, "bridge did not report as connected within 45s — check l"),
        _ => panic!("expected the end of the wait"),
    }
    assert_eq!(bridge::cached_key(&Some(String::new())), None);
    assert_eq!(bridge::shell_name("0123456789"), "cli-01234567");
    assert_eq!(bridge::bridge_of(&v[0]).unwrap_err(), "created shell '1' has no bridge_id");
    assert_eq!(bridge::daemon_args("w", "k", "o", "b", "p", "l").len(), 14);
}

#[test]
fn traffic_is_kept() {
    let mut c = Capture::new();
    c.on_request("1".into(), "GET".into(), "http://a/x".into(), Json::Null, Json::Null);
    c.on_request("2".into(), "GET".into(), "http://a/x.js".into(), Json::Null, Json::Null);
    c.on_request("3".into(), "POST".into(), "http://a/y".into(), Json::Null, Json::Null);
    assert_eq!(c.entries.len(), 2);
    c.on_response("9", "http://a/y", 200, Json::Null, "Application/JSON; charset=utf-8".into());
    assert!(c.wants_body("3"));
    assert!(!c.wants_body("1"));
    c.on_body("3", "{}");
    assert_eq!(c.entries[1].body, "{}");
    let long = "x".repeat(browser::BODY_MAX + 1);
    c.on_body("1", &long);
    assert!(c.entries[0].truncated);
    assert_eq!(c.entries[0].body.len(), browser::BODY_MAX);
    let e = c.entries.remove(1).to_json();
    assert_eq!(json::opt_int(e.get("status")), Some(200));
    assert_eq!(e.get_text("requestId"), "3");
    assert_eq!(browser::decode_body("aMOp".into(), true), "hé");
    assert_eq!(browser::decode_body("/w==".into(), true), "/w==");
    assert_eq!(browser::decode_body("aMOp".into(), false), "aMOp");
}

#[test]
fn instances_are_shared_out() {
    let mut p = Pool::new();
    assert_eq!((p.acquire(), p.acquire()), (0, 1));
    p.release(0);
    p.release(7);
    assert_eq!((p.acquire(), p.acquire()), (0, 2));
    assert_eq!(browser::slot_name(2), "slot-2");
}

#[test]
fn browsers_are_found_and_started() {
    assert_eq!(chrome::cft_platform("linux", "x86_64"), Some("linux64"));
    assert_eq!(chrome::cft_platform("linux", "aarch64"), None);
    assert_eq!(chrome::cft_binary_rel("win64"), ("chrome-win64".to_string(), "chrome.exe"));
    assert_eq!(chrome::system_candidates("linux").len(), 5);
    assert!(chrome::install_instructions("linux").contains("apt install"));
    let j = json::parse("{\"channels\": {\"Stable\": {\"downloads\": {\"chrome\": [{\"platform\": \"win64\", \"url\": \"w\"}, {\"platform\": \"linux64\", \"url\": \"l\"}]}}}}").unwrap();
    assert_eq!(chrome::find_build(&j, "linux64").unwrap(), "l");
    assert_eq!(chrome::find_build(&j, "mac-x64").unwrap_err(), "no Chrome for Testing build for mac-x64");
    let a = chrome::launch_args(9222, "/p", true);
    assert_eq!(a[0], "--remote-debugging-port=9222");
    assert_eq!(a[a.len() - 1], "--headless=new");
}

#[test]
fn browser_commands_do_things() {
    let j = json::parse("{\"direction\": \"up\", \"amount\": 5, \"selector\": \"#a\", \"text\": \"t\"}").unwrap();
    match chrome::browser_step("browser_scroll", &j) {
        BrowserStep::Scroll { dy, said } => assert_eq!((dy, said.as_str()), (-5, "scrolled up 5px")),
        _ => panic!("expected a scroll"),
    }
    match chrome::browser_step("browser_scroll", &Json::Null) {
        BrowserStep::Scroll { dy, said } => assert_eq!((dy, said.as_str()), (600, "scrolled down 600px")),
        _ => panic!("expected a scroll"),
    }
    assert!(matches!(chrome::browser_step("browser_navigate", &j), BrowserStep::Navigate(u) if u == "about:blank"));
    assert!(matches!(chrome::browser_step("browser_click", &j), BrowserStep::Click(s) if s == "#a"));
    assert!(matches!(chrome::browser_step("browser_fly", &j), BrowserStep::Unknown(e) if e == "unknown browser command: browser_fly"));
    assert_eq!(chrome::navigated("Title", "http://a"), "Title — http://a");
    assert_eq!(chrome::navigated("", "http://a"), "http://a");
    assert_eq!(chrome::navigated("", ""), "");
    assert_eq!(chrome::screenshot_url(&vec![104, 195, 169]), "data:image/png;base64,aMOp");
}
