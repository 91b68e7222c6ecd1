//! Manifests, vulnerabilities and infrastructure files.

use strobes::deps;
use strobes::iac;
use strobes::iac::{IacFile, IacType};
use strobes::json;
use strobes::manifests;
use strobes::manifests::Manifests;
use strobes::osv;
use strobes::packages;
use strobes::packages::Dep;
use strobes::prompts;
use strobes::scan;

fn nothing() -> Manifests {
    Manifests {
        requirements: vec![],
        poetry_lock: None,
        pipfile_lock: None,
        pyproject: None,
        package_lock: None,
        yarn_lock: None,
        pnpm_lock: None,
        go_mod: None,
        go_sum: None,
        cargo_lock: None,
        cargo_toml: None,
        gemfile_lock: None,
        composer_lock: None,
        pom: None,
        gradle: None,
        nuget_lock: None,
        csproj: vec![],
        deps_json: vec![],
    }
}

fn shown(v: &Vec<Dep>) -> Vec<String> {
    v.iter().map(|d| format!("{} {} {} {}", d.name, d.version, d.ecosystem, d.is_direct)).collect()
}

#[test]
fn requirements_are_read() {
    let v = deps::parse_requirements("# c\nDjango==4.2 # note\n-r other.txt\nflask>=2.0,<3\nrequests[socks]==2.31.0\n\nbare\n", "requirements.txt");
    assert_eq!(
        shown(&v),
        vec!["Django 4.2 PyPI true", "flask 2.0 PyPI true", "requests 2.31.0 PyPI true"]
    );
    assert!(deps::is_requirements_file("requirements-dev.txt"));
    assert!(!deps::is_requirements_file("notes.txt"));
}

#[test]
fn lock_files_are_read() {
    let cargo = "[[package]]\nname = \"serde\"\nversion = \"1.0.1\"\n\n[[package]]\nname = \"syn\"\nversion = \"2.0.0\"\n";
    let v = deps::parse_cargo(cargo, "[dependencies]\nserde = \"1\"\n");
    assert_eq!(shown(&v), vec!["serde 1.0.1 crates.io true", "syn 2.0.0 crates.io false"]);
    let gem = "GEM\n  specs:\n    rails (7.0.1)\n      activesupport (= 7.0.1)\n\nPLATFORMS\n";
    assert_eq!(shown(&deps::parse_gemfile(gem)), vec!["rails 7.0.1 RubyGems false", "activesupport = 7.0.1 RubyGems false"]);
    let go = "module x\n\nrequire (\n\tgithub.com/a/b v1.2.3\n\tgithub.com/c/d v0.1.0 // indirect\n)\n";
    assert_eq!(
        shown(&deps::parse_gomod(go)),
        vec!["github.com/a/b 1.2.3 Go true", "github.com/c/d 0.1.0 Go true"]
    );
    let npm = "{\"lockfileVersion\": 2, \"packages\": {\"\": {\"dependencies\": {\"a\": \"1\"}}, \"node_modules/a\": {\"version\": \"1.0.0\"}, \"node_modules/b\": {\"version\": \"2.0.0\"}}}";
    let v = deps::parse_package_lock(npm);
    assert_eq!(v.len(), 2);
    assert!(v.iter().all(|d| d.ecosystem == "npm"));
    let composer = "{\"packages\": [{\"name\": \"a/b\", \"version\": \"v1.0\"}]}";
    assert_eq!(deps::parse_composer(composer).len(), 1);
    assert!(deps::parse_composer("no json").is_empty());
}

#[test]
fn java_and_dotnet_manifests_are_read() {
    let pom = "<dependency>\n<groupId>g</groupId>\n<artifactId>a</artifactId>\n<version>1.0</version>\n</dependency>";
    assert_eq!(shown(&manifests::parse_pom(pom)), vec!["g:a 1.0 Maven true"]);
    let cs = "<PackageReference Include=\"Newtonsoft.Json\" Version=\"13.0.1\" />";
    assert_eq!(shown(&manifests::parse_csproj(cs, "x.csproj")), vec!["Newtonsoft.Json 13.0.1 NuGet true"]);
    assert_eq!(deps::xml_tag("<a>x</a>", "a"), Some("x".to_string()));
    assert_eq!(deps::xml_attr("<p n=\"v\">", "n"), Some("v".to_string()));
}

#[test]
fn projects_list_each_package_once() {
    let mut m = nothing();
    m.requirements.push(("requirements.txt".into(), "a==1\na==1\nb==2\n".into()));
    m.requirements.push(("requirements-dev.txt".into(), "a==1\n".into()));
    let v = manifests::parse_all_deps(&m);
    assert_eq!(shown(&v), vec!["a 1 PyPI true", "b 2 PyPI true"]);
    assert_eq!(packages::ecosystem_counts(&v), vec![("PyPI".to_string(), 2)]);
    assert!(manifests::parse_all_deps(&nothing()).is_empty());
}

#[test]
fn containers_are_told_by_their_release() {
    let (name, version) = manifests::parse_os_release("ID=debian\nVERSION_ID=\"12\"\nNAME=\"Debian\"\n");
    assert_eq!(manifests::os_label(&name, &version), format!("{name} {version}"));
    assert_eq!(version, "12");
    assert_eq!(manifests::os_to_ecosystem("debian"), "Debian");
    assert_eq!(manifests::os_to_ecosystem("alpine"), "Alpine");
    let dpkg = "Package: bash\nStatus: install ok installed\nVersion: 5.2\n\nPackage: gone\nStatus: deinstall ok config-files\nVersion: 1\n";
    let v = manifests::parse_dpkg_status(dpkg, "Debian");
    assert_eq!(v.iter().map(|d| d.name.as_str()).collect::<Vec<_>>(), vec!["bash"]);
    let apk = "P:musl\nV:1.2.4-r1\n\nP:busybox\nV:1.36\n";
    assert_eq!(manifests::parse_apk_installed(apk).len(), 2);
}

#[test]
fn severities_of_vulnerabilities_are_labels() {
    assert_eq!(osv::cvss_label(9), "critical");
    assert_eq!(osv::cvss_label(7), "high");
    assert_eq!(osv::cvss_label(4), "medium");
    assert_eq!(osv::cvss_label(0), "low");
    assert_eq!(osv::normalise_severity("MODERATE"), "medium");
    let j = json::parse("{\"database_specific\": {\"severity\": \"HIGH\"}}").unwrap();
    let n = osv::cvss_scores(&j).len();
    assert_eq!(osv::extract_osv_severity(&j, &vec![None; n]), "high");
    let fixed = json::parse("{\"affected\": [{\"ranges\": [{\"events\": [{\"introduced\": \"0\"}, {\"fixed\": \"1.5\"}]}]}]}").unwrap();
    assert_eq!(osv::extract_fix_versions(&fixed), vec!["1.5".to_string()]);
}

#[test]
fn vulnerabilities_are_asked_for_in_batches() {
    let v = vec![
        Dep { name: "a".into(), version: "1".into(), ecosystem: "npm".into(), is_direct: true, via: vec![], manifest: "m".into() },
        Dep { name: "b".into(), version: "2".into(), ecosystem: "PyPI".into(), is_direct: true, via: vec![], manifest: "m".into() },
    ];
    let q = json::parse(&osv::osv_query(&v, 0, 2)).unwrap();
    let list = json::opt_items(q.get("queries")).unwrap();
    assert_eq!(list.len(), 2);
    assert_eq!(list[1].get_text("version"), "2");
    assert_eq!(json::opt_text(json::opt_get(list[0].get("package"), "name")), Some("a".to_string()));
    let reply = json::parse("{\"results\": [{}, {\"vulns\": [{\"id\": \"X\"}, {\"id\": \"Y\"}, {\"id\": \"X\"}]}]}").unwrap();
    let mut hits: Vec<(usize, String)> = Vec::new();
    osv::read_batch(&mut hits, &reply, 0);
    assert_eq!(hits, vec![(1, "X".to_string()), (1, "Y".to_string()), (1, "X".to_string())]);
    assert_eq!(osv::unique_ids(&hits).len(), 2);
}

#[test]
fn infrastructure_files_are_told_apart() {
    assert_eq!(iac::classify_iac_file("main.tf", "tf", "", "", ""), Some(IacType::Terraform));
    assert_eq!(iac::classify_iac_file("Dockerfile", "", "", "", ""), Some(IacType::Dockerfile));
    assert_eq!(iac::classify_iac_file("Chart.yaml", "yaml", "apiVersion: v2\nname: x\n", "", ""), Some(IacType::Helm));
    assert_eq!(iac::classify_iac_file("d.yaml", "yaml", "apiVersion: v1\nkind: Pod\n", "", ""), Some(IacType::Kubernetes));
    assert_eq!(iac::classify_iac_file("t.json", "json", "{\"AWSTemplateFormatVersion\": \"2010\"}", "", ""), Some(IacType::CloudFormation));
    assert_eq!(iac::classify_iac_file("a.txt", "txt", "", "", ""), None);
    assert!(iac::is_skipped_dir("node_modules"));
    assert_eq!(IacType::Terraform.slug(), "terraform");
}

#[test]
fn charts_and_roles_are_known_by_their_place() {
    let chart = "kind: Service\napiVersion: v1\nname: {{ .Values.name }}\n";
    assert_eq!(iac::classify_iac_file("svc.yaml", "yaml", chart, "", ""), None);
    assert_eq!(iac::classify_iac_file("svc.yaml", "yaml", chart, "templates", "chart"), Some(IacType::Helm));
    assert_eq!(iac::classify_iac_file("values.yaml", "yaml", "replicas: 1\n", "chart", ""), Some(IacType::Helm));
    assert_eq!(iac::classify_iac_file("main.yml", "yml", "- name: x\n", "tasks", "web"), Some(IacType::Ansible));
    assert_eq!(iac::classify_iac_file("site.yml", "yml", "", "", ""), Some(IacType::Ansible));
    assert_eq!(iac::classify_iac_file("ci.yml", "yml", "", "workflows", ".github"), Some(IacType::GitHubActions));
    assert_eq!(iac::classify_iac_file("cloudformation-db.yml", "yml", "", "", ""), Some(IacType::CloudFormation));
    assert_eq!(iac::classify_iac_file("azuredeploy.json", "json", "{}", "", ""), Some(IacType::ArmTemplate));
    assert_eq!(iac::classify_iac_file("main.yml", "yml", "", "handlers", "web"), None);
    let pod = "apiVersion: v1\nkind: Pod\n";
    assert_eq!(iac::classify_iac_file("pod.yaml", "yaml", pod, "templates", ""), Some(IacType::Kubernetes));
}

#[test]
fn infrastructure_files_are_arranged_by_kind() {
    let v = vec![
        IacFile { index: 0, rel_path: "b.tf".into(), iac_type: IacType::Terraform },
        IacFile { index: 1, rel_path: "Dockerfile".into(), iac_type: IacType::Dockerfile },
        IacFile { index: 2, rel_path: "a.tf".into(), iac_type: IacType::Terraform },
    ];
    let all = iac::detect_iac_files(&v, &vec![]);
    assert_eq!(all.len(), 3);
    let only = iac::detect_iac_files(&v, &vec!["terraform".to_string()]);
    assert_eq!(only.len(), 2);
    assert!(only.iter().all(|f| f.iac_type == IacType::Terraform));
    assert!(iac::build_iac_prompt("app", &all).contains("app"));
}

#[test]
fn prompts_name_their_target() {
    assert!(prompts::build_sast_prompt(&Some("shop".into())).contains("shop"));
    assert!(prompts::build_sast_prompt(&None).contains("codebase"));
    let p = prompts::build_dast_prompt("http://a", &Some("c=1".into()), &None, &vec!["/api".into()]);
    assert!(p.contains("http://a") && p.contains("c=1") && p.contains("/api"));
}

#[test]
fn documents_that_were_read_list_their_packages() {
    let j = json::parse("{\"default\": {\"a\": {\"version\": \"==1.0\"}}, \"develop\": {\"b\": {}}}").unwrap();
    let v = deps::pipfile_packages(&j);
    assert_eq!((v.len(), v[0].name.as_str(), v[0].version.as_str()), (1, "a", "1.0"));
    let j = json::parse("{\"packages\": {\"\": {\"dependencies\": {\"x\": \"1\"}}, \"node_modules/x\": {\"version\": \"1.2.3\"}}}").unwrap();
    let v = deps::package_lock_packages(&j);
    assert_eq!((v.len(), v[0].name.as_str(), v[0].is_direct), (1, "x", true));
    let j = json::parse("{\"packages\": [{\"name\": \"p/q\", \"version\": \"v2.0\"}, {\"name\": \"r\"}]}").unwrap();
    let v = deps::composer_packages(&j);
    assert_eq!((v.len(), v[0].version.as_str()), (1, "2.0"));
    let j = json::parse("{\"dependencies\": {\"net8.0\": {\"N\": {\"type\": \"Direct\", \"resolved\": \"13.0.1\"}}}}").unwrap();
    let v = manifests::nuget_packages(&j);
    assert_eq!((v.len(), v[0].name.as_str(), v[0].is_direct), (1, "N", true));
}

#[test]
fn noise_and_matched_names_are_left_out() {
    assert!(scan::leaves_out("node_modules", &vec![]));
    assert!(scan::leaves_out("a.lock", &vec![false, true]));
    assert!(!scan::leaves_out("a.rs", &vec![false, false]));
    assert!(scan::is_left_out("a.lock", &vec!["*.txt".to_string(), "*.lock".to_string()]));
    assert!(!scan::is_left_out("a.rs", &vec!["*.lock".to_string(), "[".to_string()]));
}

#[test]
fn every_kind_of_lock_file_has_its_place() {
    let mut m = nothing();
    m.pnpm_lock = Some("packages:\n\n  lodash@4.17.21:\n    x: y\n".into());
    m.pyproject = Some("[project]\ndependencies = [\"a==1\"]\n".into());
    m.deps_json = vec![("App.deps.json".into(), "{\"libraries\":{\"B/2\":{\"type\":\"package\"}}}".into())];
    assert_eq!(shown(&manifests::parse_nodejs_deps(&m)), vec!["lodash 4.17.21 npm false"]);
    assert_eq!(
        shown(&manifests::parse_all_deps(&m)),
        vec!["a 1 PyPI true", "lodash 4.17.21 npm false", "B 2 NuGet false"]
    );
    m.yarn_lock = Some("x@^1:\n  version \"1.0\"\n".into());
    assert_eq!(shown(&manifests::parse_nodejs_deps(&m)), vec!["x 1.0 npm false"]);
}

#[test]
fn telling_names_come_before_the_content() {
    let compose = "services:\n  web:\n    image: x\n";
    assert_eq!(iac::classify_iac_file("values.yaml", "yaml", compose, "chart", ""), Some(IacType::Helm));
    assert_eq!(iac::classify_iac_file("Pulumi.yaml", "yaml", "", "templates", ""), None);
    assert_eq!(iac::classify_iac_file("template.yaml", "yaml", "", "", ""), Some(IacType::CloudFormation));
}
