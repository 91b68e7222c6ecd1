//! Commands: what they print and decide.

use strobes::cli;
use strobes::config;
use strobes::config::{Config, Overrides, Profile};
use strobes::pack;

fn none() -> Overrides {
    Overrides { base_url: None, org_id: None, master_key: None, deployment: None }
}

#[test]
fn notify_gating_and_payload() {
    assert!(cli::notify_done_bytes(10, true, 4).is_none());
    assert!(cli::notify_done_bytes(2, false, 4).is_none());
    let b = cli::notify_done_bytes(5, false, 4).expect("should notify");
    assert_eq!(b[0], 0x07, "starts with BEL");
    let s = String::from_utf8(b).unwrap();
    assert!(s.contains("\x1b]9;"), "has OSC 9 notification");
    assert!(s.contains("\x1b]777;notify;"), "has OSC 777 notification");
    assert!(cli::notify_done_bytes(0, false, 0).is_some());
}

#[test]
fn ws_url_and_prefix() {
    let p = Profile {
        base_url: "https://app.strobes.co".into(),
        org_id: "org".into(),
        master_key: "k".into(),
        deployment: "enterprise".into(),
        ..Default::default()
    };
    assert_eq!(p.api_prefix(), "/api/v1");
    assert_eq!(
        p.pulse_ws_url("T").unwrap(),
        "wss://app.strobes.co/ws/org/pulse/T/?api_key=k"
    );
}

#[test]
fn triple_is_os_dash_arch() {
    let t = pack::triple("macos", "aarch64");
    assert!(t.contains('-'), "triple should look like macos-aarch64: {t}");
    assert_eq!(pack::triple("linux", "arm64"), "linux-aarch64");
}

#[test]
fn disable_env_wins_over_everything() {
    let found = pack::find_pack(&Some("1".to_string()), &vec![true, true]);
    assert!(found.is_none());
}

#[test]
fn packs_come_from_the_bridge_repo_not_a_cli_specific_one() {
    assert!(pack::pack_base_for_tag(pack::PACK_TAG_FALLBACK).contains("strobes-bridge"));
}

#[test]
fn the_pack_url_never_uses_latest_download() {
    let url = pack::pack_base_for_tag(pack::PACK_TAG_FALLBACK);
    assert!(!url.contains("/latest/"), "must not use the latest release: {url}");
    assert!(url.contains("pack-v"));
}

#[test]
fn no_pack_means_host_python_and_untouched_path() {
    let pack = pack::find_pack(&Some("1".to_string()), &vec![true]);
    assert!(pack.is_none());
    let interp = pack::python_interpreter(&None, false);
    let path = pack::path_with_pack(&None, &Some("/usr/bin".to_string()), false);
    assert!(interp.ends_with("python3") || interp.ends_with("python"));
    assert!(path.is_none(), "PATH must be left alone when there is no pack");
}

#[test]
fn notices_are_switched_off_by_name_or_zero() {
    assert_eq!(cli::notify_settings(&Some("OFF".into()), &None), (true, 4));
    assert_eq!(cli::notify_settings(&Some("0".into()), &Some("10".into())), (true, 10));
    assert_eq!(cli::notify_settings(&None, &Some("soon".into())), (false, 4));
}

#[test]
fn a_base_gets_a_scheme_and_loses_its_slashes() {
    let mut p = Profile { base_url: " app.example/// ".into(), ..Default::default() };
    assert_eq!(p.http_base().unwrap(), "https://app.example");
    assert_eq!(p.ws_base().unwrap(), "wss://app.example");
    assert_eq!(p.host().unwrap(), "app.example");
    assert_eq!(p.dial_port(), 443);
    p.base_url = "http://127.0.0.1:8000/".into();
    assert_eq!(p.ws_base().unwrap(), "ws://127.0.0.1:8000");
    assert_eq!(p.dial_port(), 8000);
    p.base_url = " / ".into();
    assert_eq!(p.http_base().unwrap_err(), "base_url is empty — run `strobes login` first");
    assert!(p.pulse_ws_url("t").is_err());
    p.base_url = "unix:/a://b".into();
    assert_eq!(p.ws_base().unwrap_err(), "base_url has no host");
    p.base_url = "http://[bad".into();
    assert!(p.ws_base().is_err());
    assert!(p.host().is_none());
    assert_eq!(p.dial_port(), 80);
}

#[test]
fn only_direct_deployments_have_a_short_prefix() {
    let mut p = Profile::default();
    assert_eq!(p.api_prefix(), "/api/v1");
    p.deployment = "direct".into();
    assert_eq!(p.api_prefix(), "/v1");
    p.deployment = "v1".into();
    assert_eq!(p.api_prefix(), "/v1");
}

#[test]
fn hosts_are_resolved_by_hand() {
    let p = Profile { base_url: "https://box.local".into(), ..Default::default() };
    let hosts = "# table\n127.0.0.1 localhost\n10.0.0.7 Box.LOCAL other # mine\n";
    let ip = |o: Option<strobes::ip::IpAddr>| o.map(|a| a.to_text());
    assert_eq!(ip(p.resolve_override(&None, hosts)), Some("10.0.0.7".to_string()));
    assert_eq!(ip(p.resolve_override(&Some(" 1.2.3.4 ".into()), hosts)), Some("1.2.3.4".to_string()));
    assert_eq!(ip(p.resolve_override(&Some("BOX.local:1.2.3.4".into()), hosts)), Some("1.2.3.4".to_string()));
    assert_eq!(ip(p.resolve_override(&Some("a.example:1.2.3.4".into()), hosts)), None);
    assert_eq!(ip(p.resolve_override(&Some("nonsense".into()), hosts)), Some("10.0.0.7".to_string()));
    let q = Profile { base_url: "https://a.example".into(), ..Default::default() };
    assert_eq!(ip(q.resolve_override(&None, "1.1.1.1 a.example")), None);
}

#[test]
fn secrets_are_shown_in_part() {
    assert_eq!(config::redact(""), "(unset)");
    assert_eq!(config::redact("12345678"), "********");
    assert_eq!(config::redact("abcd12345wxyz"), "abcd…wxyz");
}

#[test]
fn a_config_always_has_a_tenant() {
    let mut c = Config::new();
    c.fill();
    assert_eq!(c.current_profile, "default");
    assert_eq!(c.profiles.entries.len(), 1);
    assert!(!c.has_default());
    assert!(c.tenants().is_empty());
}

#[test]
fn the_first_complete_tenant_becomes_the_default() {
    let mut c = Config::new();
    c.fill();
    assert_eq!(cli::sign_in(&mut c, "b", "x.example/", "o", "", ""), cli::SignedIn::Incomplete);
    assert_eq!(cli::sign_in(&mut c, "b", " x.example/ ", " o ", "k", ""), cli::SignedIn::NowDefault);
    assert_eq!(c.current_profile, "b");
    assert_eq!(cli::sign_in(&mut c, "a", "y.example", "o", "k", "direct"), cli::SignedIn::OtherDefault);
    assert_eq!(c.current_profile, "b");
    assert_eq!(cli::sign_in(&mut c, "b", "z.example", "o", "k", ""), cli::SignedIn::WasDefault);
    assert_eq!(c.tenants(), vec!["a".to_string(), "b".to_string()]);
    let p = c.current(&none());
    assert_eq!((p.base_url.as_str(), p.org_id.as_str()), ("z.example", "o"));
    let q = c.profile_for("a", &Overrides { master_key: Some("other".into()), ..none() });
    assert_eq!((q.master_key.as_str(), q.deployment.as_str()), ("other", "direct"));
    assert!(!c.profile_for("nobody", &none()).is_complete());
}

#[test]
fn profiles_are_changed_in_place() {
    let mut c = Config::new();
    c.profile_mut("t").org_id = "o".into();
    c.profile_mut("s").org_id = "p".into();
    c.profile_mut("t").base_url = "b".into();
    assert_eq!(c.profile_for("t", &none()).org_id, "o");
    assert_eq!(c.profile_for("t", &none()).base_url, "b");
    c.remember("t", "thread", &None);
    c.remember("t", "next", &Some("w".into()));
    c.remember("t", "last", &None);
    let p = c.profile_for("t", &none());
    assert_eq!((p.thread_id.as_deref(), p.workspace_id.as_deref()), (Some("last"), Some("w")));
    let names: Vec<&str> = c.profiles.entries.iter().map(|e| e.0.as_str()).collect();
    assert_eq!(names, vec!["s", "t"]);
}

#[test]
fn versions_go_by_their_numbers() {
    assert!(cli::version_is_newer("0.10.0", "0.9.9"));
    assert!(cli::version_is_newer("1.0.0.1", "1.0"));
    assert!(!cli::version_is_newer("1.0.0", "1.0"));
    assert!(!cli::version_is_newer("0.1.0-rc1", "0.1.0"));
    assert!(cli::version_is_newer("2", "1.9.9"));
    assert!(!cli::version_is_newer("99999999999999999999", "1"));
}

#[test]
fn updates_are_planned() {
    match cli::update_plan("0.2.0", "0.1.0", false, "linux", "x86_64") {
        cli::Update::Fetch { target, url } => {
            assert_eq!(target, "x86_64-unknown-linux-gnu");
            assert_eq!(url, "https://github.com/strobes-co/strobes-agents-cli/releases/latest/download/strobes-x86_64-unknown-linux-gnu.tar.gz");
        }
        _ => panic!("expected a build"),
    }
    assert!(matches!(cli::update_plan("0.1.0", "0.1.0", false, "linux", "x86_64"), cli::Update::UpToDate));
    assert!(matches!(cli::update_plan("0.1.0", "0.1.0", true, "linux", "x86_64"), cli::Update::Fetch { .. }));
    match cli::update_plan("0.2.0", "0.1.0", false, "plan9", "mips") {
        cli::Update::NoBuild(e) => assert_eq!(e, "no prebuilt release for plan9/mips — build from source"),
        _ => panic!("expected no build"),
    }
    assert_eq!(cli::tag_version("v0.3.1"), "0.3.1");
}

#[test]
fn incomplete_profiles_are_refused() {
    let e = cli::require_complete(&Profile::default()).unwrap_err();
    assert_eq!(e, "profile incomplete — run `strobes login` first");
    let p = Profile { base_url: "b".into(), org_id: "o".into(), master_key: "k".into(), ..Default::default() };
    assert!(cli::require_complete(&p).is_ok());
}

#[test]
fn questions_show_the_current_value() {
    assert_eq!(cli::prompt_text("Org", "", false), "Org: ");
    assert_eq!(cli::prompt_text("Org", "o", false), "Org [o]: ");
    assert_eq!(cli::prompt_text("Key", "abcd12345wxyz", true), "Key [abcd…wxyz]: ");
    assert_eq!(cli::answered(" \n", "old"), "old");
    assert_eq!(cli::answered(" new\n", "old"), "new");
}
