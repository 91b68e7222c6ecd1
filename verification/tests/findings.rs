//! Findings: their order, their summaries and their documents.

use strobes::findings::{DastFinding, IacFinding, SastFinding, ScaFinding};
use strobes::json;
use strobes::osv::OsvVuln;
use strobes::report;
use strobes::sarif;
use strobes::severity;
use strobes::verdict;
use strobes::verdict::{Delivery, ScaPlan, Subject, Wanted};

fn sast(severity: &str, title: &str) -> SastFinding {
    SastFinding {
        severity: severity.into(),
        title: title.into(),
        file: "src/a.rs".into(),
        line: Some(7),
        description: "what happens".into(),
        fix: "do that".into(),
    }
}

fn vuln(severity: &str) -> OsvVuln {
    OsvVuln {
        id: "GHSA-1".into(),
        aliases: vec!["X".into(), "CVE-2024-1".into()],
        summary: "sum".into(),
        severity: severity.into(),
        fix_versions: vec!["2.0".into(), "3.0".into()],
        details: "long".into(),
        pkg_name: "p".into(),
        pkg_version: "1.0".into(),
        pkg_ecosystem: "npm".into(),
        is_direct: false,
        via: vec!["q".into()],
        manifest: "package-lock.json".into(),
    }
}

fn wanted(format: &str, path: Option<&str>, fail_on: Option<&str>) -> Wanted {
    Wanted {
        format: format.into(),
        path: path.map(String::from),
        fail_on: fail_on.map(String::from),
    }
}

fn subject() -> Subject {
    Subject { target: "app".into(), workspace: Some("w".into()), thread: "t".into(), secs: 61 }
}

#[test]
fn severities_have_levels() {
    assert_eq!(severity::severity_level("CRITICAL"), 4);
    assert_eq!(severity::severity_level("high"), 3);
    assert_eq!(severity::severity_level("Medium"), 2);
    assert_eq!(severity::severity_level("low"), 1);
    assert_eq!(severity::severity_level("info"), 0);
}

#[test]
fn the_gravest_come_first_and_ties_keep_their_order() {
    let v = vec![sast("low", "1"), sast("high", "2"), sast("low", "3"), sast("critical", "4"), sast("high", "5")];
    let titles: Vec<String> = severity::rank(&v).iter().map(|f| f.title.clone()).collect();
    assert_eq!(titles, vec!["4", "2", "5", "1", "3"]);
}

#[test]
fn the_gate_counts_what_is_at_least_as_severe() {
    let v = vec![sast("low", "1"), sast("high", "2"), sast("critical", "3")];
    assert_eq!(severity::gate(&v, &Some("high".into()), ""), Some("2 finding(s) at or above 'high' severity".to_string()));
    assert_eq!(severity::gate(&v, &Some("high".into()), " IaC"), Some("2 IaC finding(s) at or above 'high' severity".to_string()));
    assert_eq!(severity::gate(&v, &None, ""), None);
    let low = vec![sast("low", "1")];
    assert_eq!(severity::gate(&low, &Some("medium".into()), ""), None);
}

#[test]
fn code_scans_end_with_a_verdict() {
    let v = vec![sast("low", "one"), sast("critical", "two")];
    let r = verdict::conclude_sast(&v, &subject(), "said".into(), &wanted("json", None, Some("high")));
    assert!(r.summary.contains("app") && r.summary.contains("CRITICAL"));
    assert!(r.summary.find("two").unwrap() < r.summary.find("one").unwrap());
    assert_eq!(r.error, Some("1 finding(s) at or above 'high' severity".to_string()));
    match r.delivery {
        Delivery::Print(c) => {
            let j = json::parse(&c).unwrap();
            assert_eq!(j.get_text("scan_target"), "app");
            assert_eq!(j.get_text("workspace_id"), "w");
            assert_eq!(json::opt_int(j.get("elapsed_secs")), Some(61));
            let list = json::opt_items(j.get("findings")).unwrap();
            assert_eq!(list.len(), 2);
            assert_eq!(list[0].get_text("title"), "two");
        }
        _ => panic!("expected the report"),
    }
}

#[test]
fn files_get_the_report_or_what_was_said() {
    let v = vec![sast("low", "one")];
    let r = verdict::conclude_sast(&v, &subject(), "said".into(), &wanted("sarif", Some("o.sarif"), None));
    match r.delivery {
        Delivery::File { path, content, note } => {
            assert_eq!((path.as_str(), note.as_str()), ("o.sarif", "results saved → o.sarif"));
            assert!(content.contains("\"2.1.0\""));
        }
        _ => panic!("expected a file"),
    }
    let r = verdict::conclude_sast(&v, &subject(), "said".into(), &wanted("text", Some("o.txt"), None));
    match r.delivery {
        Delivery::File { content, note, .. } => {
            assert_eq!((content.as_str(), note.as_str()), ("said", "raw output saved → o.txt"));
        }
        _ => panic!("expected a file"),
    }
    let r = verdict::conclude_iac(&vec![], 3, &subject(), &wanted("text", Some("o.txt"), None));
    assert!(matches!(r.delivery, Delivery::Nothing));
    let r = verdict::conclude_sast(&v, &subject(), "said".into(), &wanted("text", None, None));
    assert!(matches!(r.delivery, Delivery::Nothing));
}

#[test]
fn dependencies_are_reported_or_analysed() {
    let v = vec![vuln("low"), vuln("high")];
    let w = wanted("json", None, Some("critical"));
    assert!(matches!(verdict::plan_sca(&v, "critical", false, &subject(), &w), ScaPlan::Clean(_)));
    match verdict::plan_sca(&v, "medium", false, &subject(), &w) {
        ScaPlan::Analyze(x) => assert_eq!((x.len(), x[0].severity.as_str()), (1, "high")),
        _ => panic!("expected an analysis"),
    }
    match verdict::plan_sca(&v, "low", true, &subject(), &w) {
        ScaPlan::Report(r) => {
            assert_eq!(r.error, None);
            assert!(r.summary.contains("CVE-2024-1"));
            match r.delivery {
                Delivery::Print(c) => {
                    let j = json::parse(&c).unwrap();
                    assert_eq!(json::opt_items(j.get("findings")).unwrap().len(), 2);
                    assert_eq!(json::opt_int(j.get("total_cves")), Some(2));
                }
                _ => panic!("expected the report"),
            }
        }
        _ => panic!("expected a report"),
    }
    assert_eq!(verdict::found_line(2, "low"), "  2 CVE(s) found (severity >= low)");
}

#[test]
fn analysed_dependencies_gate_the_build() {
    let f = ScaFinding {
        severity: "high".into(),
        title: "t".into(),
        cve_id: "CVE-1".into(),
        package: "p".into(),
        version: "1".into(),
        is_direct: true,
        via: vec![],
        fix_version: "2".into(),
        reachable: true,
        reachability_confidence: "likely_reachable".into(),
        description: "d".into(),
        ai_reasoning: "r".into(),
    };
    let r = verdict::conclude_sca(&vec![f], 5, &subject(), &wanted("sarif", None, Some("low")));
    assert_eq!(r.error, Some("1 SCA finding(s) at or above 'low' severity".to_string()));
    assert!(r.summary.contains("[LIKELY REACHABLE]"));
    match r.delivery {
        Delivery::Print(c) => assert!(c.contains("strobes/sca/app")),
        _ => panic!("expected the document"),
    }
}

#[test]
fn applications_are_named_with_and_without_their_scheme() {
    let f = DastFinding {
        severity: "medium".into(),
        title: "XSS".into(),
        url: "http://a/x".into(),
        parameter: "q".into(),
        method: "GET".into(),
        request: "GET /x".into(),
        evidence: "seen".into(),
        description: "d".into(),
        fix: "f".into(),
    };
    let r = verdict::conclude_dast(&vec![f], &subject(), "a", "said".into(), &wanted("sarif", None, None));
    match r.delivery {
        Delivery::Print(c) => assert!(c.contains("strobes/dast/a")),
        _ => panic!("expected the document"),
    }
}

#[test]
fn results_name_rules_of_their_document() {
    let v = vec![sast("high", "SQL injection"), sast("low", "SQL injection"), sast("low", "Other")];
    let j = sarif::sast_to_sarif(&v, "app");
    let runs = json::opt_items(j.get("runs")).unwrap();
    let rules = json::opt_items(json::opt_get(json::opt_get(runs[0].get("tool"), "driver"), "rules")).unwrap();
    let results = json::opt_items(runs[0].get("results")).unwrap();
    assert_eq!(results.len(), 3);
    let ids: Vec<String> = rules.iter().map(|r| r.get_text("id")).collect();
    for r in results {
        assert!(ids.contains(&r.get_text("ruleId")));
    }
}

#[test]
fn infrastructure_summaries_count_files() {
    let f = IacFinding {
        severity: "high".into(),
        title: "Open bucket".into(),
        file: "main.tf".into(),
        line: None,
        resource: "aws_s3_bucket.x".into(),
        iac_type: "terraform".into(),
        description: "d".into(),
        fix: "f".into(),
    };
    let s = report::print_iac_summary(&vec![f], "app", 3, 12);
    assert!(s.contains("12") && s.contains("Open bucket") && s.contains("main.tf"));
}

#[test]
fn texts_are_wrapped_at_words() {
    assert_eq!(report::wrap_text("aa bb cc", 5), vec!["aa bb".to_string(), "cc".to_string()]);
    assert!(report::wrap_text("", 5).is_empty());
}
