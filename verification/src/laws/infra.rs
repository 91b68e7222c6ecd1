//! Infrastructure files: which kind a file is of.

use vstd::prelude::*;
use crate::iac;
use crate::iac::{IacFileView, IacType};
use crate::laws::texts;
use crate::order;
use crate::text;

verus! {

broadcast use vstd::seq::group_seq_axioms;

/// A file that is named as a compose file, a Dockerfile, a Helm chart or a
/// Pulumi project is known by its name, whatever it holds and wherever it stands;
/// a Pulumi project is left out.
pub proof fn names_tell_the_kind(
    name: Seq<char>,
    ext: Seq<char>,
    head: Seq<char>,
    parent: Seq<char>,
    above: Seq<char>,
    stage: Seq<char>,
)
    ensures
        name == "docker-compose.yml"@ || name == "docker-compose.yaml"@ || name == "compose.yml"@
            || name == "compose.yaml"@ ==> iac::file_kind(name, ext, head, parent, above) == Some(
            IacType::DockerCompose,
        ),
        name == "Dockerfile"@ || name == "Dockerfile."@ + stage ==> iac::file_kind(
            name,
            ext,
            head,
            parent,
            above,
        ) == Some(IacType::Dockerfile),
        name == "Chart.yaml"@ || name == "Chart.yml"@ ==> iac::file_kind(
            name,
            ext,
            head,
            parent,
            above,
        ) == Some(IacType::Helm),
        name == "Pulumi.yaml"@ || name == "Pulumi.yml"@ ==> iac::file_kind(
            name,
            ext,
            head,
            parent,
            above,
        ) is None,
{
    reveal_strlit("docker-compose.yml");
    reveal_strlit("docker-compose.yaml");
    reveal_strlit("compose.yml");
    reveal_strlit("compose.yaml");
    reveal_strlit("Dockerfile");
    reveal_strlit("Dockerfile.");
    reveal_strlit("Chart.yaml");
    reveal_strlit("Chart.yml");
    reveal_strlit("Pulumi.yaml");
    reveal_strlit("Pulumi.yml");
    texts::wholes_hold_their_parts(Seq::empty(), "Dockerfile."@, stage);
    if name.len() > 0 && name[0] != 'D' {
        assert(name != "Dockerfile"@) by {
            assert("Dockerfile"@[0] == 'D');
        }
        if text::starts_with(name, "Dockerfile."@) {
            assert(name.subrange(0, 11)[0] == name[0]);
            assert("Dockerfile."@[0] == 'D');
        }
    }
    assert("docker-compose.yml"@[0] == 'd' && "docker-compose.yaml"@[0] == 'd');
    assert("compose.yml"@[0] == 'c' && "compose.yaml"@[0] == 'c');
    assert("Chart.yaml"@[0] == 'C' && "Chart.yml"@[0] == 'C');
    assert("Pulumi.yaml"@[0] == 'P' && "Pulumi.yml"@[0] == 'P');
}

/// A name that tells the kind of a file by itself.
pub open spec fn is_telling(name: Seq<char>) -> bool {
    ||| name == "Dockerfile"@
    ||| text::starts_with(name, "Dockerfile."@)
    ||| name == "docker-compose.yml"@
    ||| name == "docker-compose.yaml"@
    ||| name == "compose.yml"@
    ||| name == "compose.yaml"@
    ||| name == "Chart.yaml"@
    ||| name == "Chart.yml"@
    ||| name == "Pulumi.yaml"@
    ||| name == "Pulumi.yml"@
}

/// A file that ends in `tf` or `tfvars` is Terraform.
pub proof fn terraform_files_are_known_by_their_ending(
    name: Seq<char>,
    ext: Seq<char>,
    head: Seq<char>,
    parent: Seq<char>,
    above: Seq<char>,
)
    requires
        !is_telling(name),
        ext == "tf"@ || ext == "tfvars"@,
    ensures
        iac::file_kind(name, ext, head, parent, above) == Some(IacType::Terraform),
{
}

/// Some files are known by where they stand: a SAM or CloudFormation template,
/// the values of a chart, a workflow of GitHub, a playbook or the tasks of a
/// role, an ARM deployment.
pub proof fn places_tell_the_kind(
    name: Seq<char>,
    ext: Seq<char>,
    head: Seq<char>,
    parent: Seq<char>,
    above: Seq<char>,
    rest: Seq<char>,
)
    requires
        !is_telling(name),
        ext != "tf"@ && ext != "tfvars"@,
    ensures
        name == "template.yaml"@ || (name == "cloudformation"@ + rest && ext == "yml"@)
            ==> iac::file_kind(name, ext, head, parent, above) == Some(IacType::CloudFormation),
        name == "values.yaml"@ ==> iac::file_kind(name, ext, head, parent, above) == Some(
            IacType::Helm,
        ),
        above == ".github"@ && parent == "workflows"@ && ext == "yml"@ && !text::starts_with(
            name,
            "cloudformation"@,
        ) && name != "template.yaml"@ && name != "values.yaml"@ ==> iac::file_kind(
            name,
            ext,
            head,
            parent,
            above,
        ) == Some(IacType::GitHubActions),
        (name == "playbook.yml"@ || name == "site.yml"@ || (name == "main.yml"@ && parent
            == "tasks"@)) && (above != ".github"@ || parent != "workflows"@) ==> iac::file_kind(
            name,
            ext,
            head,
            parent,
            above,
        ) == Some(IacType::Ansible),
        name == "azuredeploy.json"@ && ext == "json"@ ==> iac::file_kind(
            name,
            ext,
            head,
            parent,
            above,
        ) == Some(IacType::ArmTemplate),
{
    reveal_strlit("cloudformation");
    reveal_strlit("template.yaml");
    reveal_strlit("values.yaml");
    reveal_strlit("playbook.yml");
    reveal_strlit("site.yml");
    reveal_strlit("main.yml");
    reveal_strlit("azuredeploy.json");
    reveal_strlit("yml");
    reveal_strlit("json");
    texts::wholes_hold_their_parts(Seq::empty(), "cloudformation"@, rest);
    assert("template.yaml"@[0] == 't');
    assert("values.yaml"@[0] == 'v');
    assert("playbook.yml"@[0] == 'p');
    assert("site.yml"@[0] == 's');
    assert("main.yml"@[0] == 'm');
    assert("azuredeploy.json"@[0] == 'a');
    assert("yml"@[0] == 'y' && "json"@[0] == 'j');
    if name.len() > 0 && name[0] != 'c' && text::starts_with(name, "cloudformation"@) {
        assert(name.subrange(0, 14)[0] == name[0]);
        assert("cloudformation"@[0] == 'c');
    }
}

/// A file whose name, ending and place leave it open is judged by what it holds.
pub open spec fn is_open(name: Seq<char>, ext: Seq<char>, parent: Seq<char>, above: Seq<char>) -> bool {
    &&& !is_telling(name)
    &&& ext != "tf"@
    &&& ext != "tfvars"@
    &&& iac::place_kind(name, ext, parent, above) is None
}

/// A YAML file that is judged by what it holds: a workflow has a trigger and
/// jobs; a CloudFormation template says so or declares AWS resources; a manifest
/// with a version and a kind is of Kubernetes, unless it is a template; services
/// with an image or a build are of compose; a list of plays with hosts and tasks
/// is of Ansible. A template in a chart's folder is of Helm.
pub proof fn contents_tell_the_kind_of_yaml(
    name: Seq<char>,
    ext: Seq<char>,
    c: Seq<char>,
    parent: Seq<char>,
    above: Seq<char>,
)
    requires
        is_open(name, ext, parent, above),
        ext == "yaml"@ || ext == "yml"@,
        text::ends_with(name, ".yml"@) || text::ends_with(name, ".yaml"@),
    ensures
        ({
            let r = iac::file_kind(name, ext, c, parent, above);
            let jobs = (text::starts_with(c, "on:"@) || text::contains(c, "\non:"@)
                || text::starts_with(c, "\"on\""@) || text::contains(c, "\n\"on\":"@))
                && text::contains(c, "jobs:"@);
            let aws = text::contains(c, "AWSTemplateFormatVersion"@) || text::contains(
                c,
                "Type: AWS::"@,
            ) || text::contains(c, "Type: \"AWS::"@);
            let object = text::contains(c, "apiVersion:"@) && text::contains(c, "kind:"@);
            let template = text::contains(c, "{{"@);
            let services = text::contains(c, "services:"@) && (text::contains(c, "image:"@)
                || text::contains(c, "build:"@));
            let chart = parent == "templates"@ && ext == "yaml"@;
            &&& jobs ==> r == Some(IacType::GitHubActions)
            &&& !jobs && aws ==> r == Some(IacType::CloudFormation)
            &&& !jobs && !aws && object && !template ==> r == Some(IacType::Kubernetes)
            &&& !jobs && !aws && object && template && chart ==> r == Some(IacType::Helm)
            &&& !jobs && !aws && object && template && !chart ==> r is None
            &&& !jobs && !aws && !object && services ==> r == Some(IacType::DockerCompose)
            &&& !jobs && !aws && !object && !services && text::starts_with(c, "- "@)
                && text::contains(c, "hosts:"@) && text::contains(c, "tasks:"@) ==> r == Some(
                IacType::Ansible,
            )
            &&& !jobs && !aws && !object && !services && !text::contains(c, "hosts:"@)
                ==> r == if chart {
                Some(IacType::Helm)
            } else {
                None
            }
        }),
{
    reveal_strlit("- ");
    if text::starts_with(c, "- "@) {
        assert(c.subrange(0, 2)[0] == c[0]);
        assert(c[0] == '-');
        assert(crate::pieces::trim_start(c) == c);
    }
}

/// A JSON file that is judged by what it holds is a deployment template of
/// Azure, or a CloudFormation template, or of no kind.
pub proof fn contents_tell_the_kind_of_json(
    name: Seq<char>,
    c: Seq<char>,
    parent: Seq<char>,
    above: Seq<char>,
)
    requires
        is_open(name, "json"@, parent, above),
    ensures
        ({
            let r = iac::file_kind(name, "json"@, c, parent, above);
            let arm = text::contains(c, "\"$schema\""@) && text::contains(c, "deploymentTemplate"@);
            let aws = text::contains(c, "AWSTemplateFormatVersion"@);
            &&& arm ==> r == Some(IacType::ArmTemplate)
            &&& !arm && aws ==> r == Some(IacType::CloudFormation)
            &&& !arm && !aws ==> r is None
        }),
{
    reveal_strlit("json");
    reveal_strlit("yaml");
    reveal_strlit("yml");
    assert("yaml"@[0] == 'y' && "yml"@[0] == 'y' && "json"@[0] == 'j');
}

/// A file of any other ending that is not known by its name or place is of no
/// kind, and nothing of it is read.
pub proof fn other_files_are_left_out(
    name: Seq<char>,
    ext: Seq<char>,
    c: Seq<char>,
    parent: Seq<char>,
    above: Seq<char>,
)
    requires
        is_open(name, ext, parent, above),
        ext != "yaml"@ && ext != "yml"@ && ext != "json"@,
    ensures
        iac::file_kind(name, ext, c, parent, above) is None,
        iac::sniffed_bytes(ext) == 0,
        iac::sniffed_bytes("yaml"@) == 4096,
        iac::sniffed_bytes("yml"@) == 4096,
        iac::sniffed_bytes("json"@) == 2048,
{
    reveal_strlit("json");
    reveal_strlit("yaml");
    reveal_strlit("yml");
    assert("yaml"@[0] == 'y' && "yml"@[0] == 'y' && "json"@[0] == 'j');
}

/// The files that are kept are those of the wanted kinds: of all kinds where none
/// is named, else of the kinds whose short names are; each as often as it was
/// found.
pub proof fn wanted_kinds_are_kept(v: Seq<IacFileView>, only: Seq<Seq<char>>, f: IacFileView)
    ensures
        iac::arranged(v, only).contains(f) <==> v.contains(f) && (only.len() == 0 || only.contains(
            iac::slug_of(f.iac_type),
        )),
    decreases v.len(),
{
    if v.len() > 0 {
        let w = v.drop_last();
        wanted_kinds_are_kept(w, only, f);
        assert(v =~= w.push(v.last()));
        assert(v.contains(f) <==> w.contains(f) || f == v.last()) by {
            if w.contains(f) {
                let k = choose|k: int| 0 <= k < w.len() && w[k] == f;
                assert(v[k] == f);
            }
            if f == v.last() {
                assert(v[v.len() - 1] == f);
            }
            if v.contains(f) {
                let k = choose|k: int| 0 <= k < v.len() && v[k] == f;
                if k < w.len() {
                    assert(w[k] == f);
                }
            }
        }
        if iac::selected(v.last(), only) {
            placed_contains(iac::arranged(w, only), v.last(), f);
        }
    }
}

proof fn placed_contains(s: Seq<IacFileView>, x: IacFileView, f: IacFileView)
    ensures
        iac::placed(s, x).contains(f) <==> s.contains(f) || f == x,
    decreases s.len(),
{
    if s.len() == 0 {
        assert(iac::placed(s, x)[0] == x);
    } else if iac::file_before(x, s.last()) {
        let w = s.drop_last();
        placed_contains(w, x, f);
        let p = iac::placed(w, x);
        let q = p.push(s.last());
        push_contains(p, s.last(), f);
        push_contains(w, s.last(), f);
        assert(s =~= w.push(s.last()));
    } else {
        push_contains(s, x, f);
    }
}

proof fn push_contains(s: Seq<IacFileView>, x: IacFileView, f: IacFileView)
    ensures
        s.push(x).contains(f) <==> s.contains(f) || f == x,
{
    let t = s.push(x);
    if s.contains(f) {
        let k = choose|k: int| 0 <= k < s.len() && s[k] == f;
        assert(t[k] == f);
    }
    if f == x {
        assert(t[s.len() as int] == f);
    }
    if t.contains(f) {
        let k = choose|k: int| 0 <= k < t.len() && t[k] == f;
        if k < s.len() {
            assert(s[k] == f);
        }
    }
}

/// The kept files stand in the order of the names of their kinds, and within a
/// kind in the order of their paths.
pub proof fn kept_files_are_in_order(v: Seq<IacFileView>, only: Seq<Seq<char>>, i: int, j: int)
    requires
        0 <= i < j < iac::arranged(v, only).len(),
    ensures
        ({
            let a = iac::arranged(v, only)[i];
            let b = iac::arranged(v, only)[j];
            let la = iac::label_of(a.iac_type);
            let lb = iac::label_of(b.iac_type);
            &&& !order::precedes(lb, la)
            &&& la == lb ==> !order::precedes(b.rel_path, a.rel_path)
        }),
    decreases v.len(),
{
    arranged_sorted(v, only);
    assert(in_order(iac::arranged(v, only)));
    let a = iac::arranged(v, only)[i];
    let b = iac::arranged(v, only)[j];
    assert(!iac::file_before(b, a));
}

pub open spec fn in_order(s: Seq<IacFileView>) -> bool {
    forall|i: int, j: int|
        0 <= i < j < s.len() ==> !iac::file_before(#[trigger] s[j], #[trigger] s[i])
}

proof fn before_facts(a: IacFileView, b: IacFileView, c: IacFileView)
    ensures
        !(iac::file_before(a, b) && iac::file_before(b, a)),
        iac::file_before(a, b) && !iac::file_before(c, b) ==> !iac::file_before(c, a),
{
    let la = iac::label_of(a.iac_type);
    let lb = iac::label_of(b.iac_type);
    let lc = iac::label_of(c.iac_type);
    order::order_is_total(la, lb);
    order::order_is_total(lb, lc);
    order::order_is_total(la, lc);
    order::order_is_total(a.rel_path, b.rel_path);
    order::order_is_total(b.rel_path, c.rel_path);
    order::order_is_total(a.rel_path, c.rel_path);
    if iac::file_before(a, b) && iac::file_before(c, a) {
        if order::precedes(lc, la) && order::precedes(la, lb) {
            order::order_is_transitive(lc, la, lb);
        }
        if order::precedes(c.rel_path, a.rel_path) && order::precedes(a.rel_path, b.rel_path) {
            order::order_is_transitive(c.rel_path, a.rel_path, b.rel_path);
        }
    }
}

proof fn arranged_sorted(v: Seq<IacFileView>, only: Seq<Seq<char>>)
    ensures
        in_order(iac::arranged(v, only)),
    decreases v.len(),
{
    if v.len() > 0 {
        arranged_sorted(v.drop_last(), only);
        if iac::selected(v.last(), only) {
            placed_sorted(iac::arranged(v.drop_last(), only), v.last());
        }
    }
}

proof fn placed_sorted(s: Seq<IacFileView>, x: IacFileView)
    requires
        in_order(s),
    ensures
        in_order(iac::placed(s, x)),
    decreases s.len(),
{
    let r = iac::placed(s, x);
    if s.len() == 0 {
    } else if iac::file_before(x, s.last()) {
        let w = s.drop_last();
        assert(in_order(w)) by {
            assert forall|i: int, j: int| 0 <= i < j < w.len() implies !iac::file_before(
                #[trigger] w[j],
                #[trigger] w[i],
            ) by {
                assert(w[j] == s[j] && w[i] == s[i]);
            }
        }
        placed_sorted(w, x);
        let p = iac::placed(w, x);
        assert forall|i: int, j: int| 0 <= i < j < r.len() implies !iac::file_before(
            #[trigger] r[j],
            #[trigger] r[i],
        ) by {
            if j < p.len() {
                assert(r[j] == p[j] && r[i] == p[i]);
            } else {
                assert(r[j] == s.last());
                assert(p.contains(r[i])) by {
                    assert(p[i] == r[i]);
                }
                placed_contains(w, x, r[i]);
                if w.contains(r[i]) {
                    let k = choose|k: int| 0 <= k < w.len() && w[k] == r[i];
                    assert(s[k] == r[i]);
                } else {
                    before_facts(x, s.last(), x);
                }
            }
        }
    } else {
        assert forall|i: int, j: int| 0 <= i < j < r.len() implies !iac::file_before(
            #[trigger] r[j],
            #[trigger] r[i],
        ) by {
            if j < s.len() {
                assert(r[j] == s[j] && r[i] == s[i]);
            } else {
                assert(r[j] == x && r[i] == s[i]);
                if iac::file_before(x, s[i]) {
                    if i < s.len() - 1 {
                        assert(!iac::file_before(s[s.len() - 1], s[i]));
                        later_than(x, s[i], s.last());
                    }
                }
            }
        }
    }
}

proof fn later_than(x: IacFileView, a: IacFileView, b: IacFileView)
    requires
        iac::file_before(x, a),
        !iac::file_before(b, a),
    ensures
        iac::file_before(x, b),
{
    let lx = iac::label_of(x.iac_type);
    let la = iac::label_of(a.iac_type);
    let lb = iac::label_of(b.iac_type);
    order::order_is_total(la, lb);
    order::order_is_total(a.rel_path, b.rel_path);
    if order::precedes(lx, la) {
        if order::precedes(la, lb) {
            order::order_is_transitive(lx, la, lb);
        }
    } else if la == lb && a.rel_path != b.rel_path {
        order::order_is_transitive(x.rel_path, a.rel_path, b.rel_path);
    }
}

/// Each kind has a name and a short name of its own.
pub proof fn kinds_have_names_of_their_own()
    ensures
        iac::label_of(IacType::Terraform) == "Terraform"@,
        iac::label_of(IacType::CloudFormation) == "CloudFormation"@,
        iac::label_of(IacType::Kubernetes) == "Kubernetes"@,
        iac::label_of(IacType::Helm) == "Helm"@,
        iac::label_of(IacType::Dockerfile) == "Dockerfile"@,
        iac::label_of(IacType::DockerCompose) == "Docker Compose"@,
        iac::label_of(IacType::GitHubActions) == "GitHub Actions"@,
        iac::label_of(IacType::Ansible) == "Ansible"@,
        iac::label_of(IacType::ArmTemplate) == "ARM Template"@,
        iac::slug_of(IacType::Terraform) == "terraform"@,
        iac::slug_of(IacType::CloudFormation) == "cloudformation"@,
        iac::slug_of(IacType::Kubernetes) == "kubernetes"@,
        iac::slug_of(IacType::Helm) == "helm"@,
        iac::slug_of(IacType::Dockerfile) == "dockerfile"@,
        iac::slug_of(IacType::DockerCompose) == "compose"@,
        iac::slug_of(IacType::GitHubActions) == "github-actions"@,
        iac::slug_of(IacType::Ansible) == "ansible"@,
        iac::slug_of(IacType::ArmTemplate) == "arm"@,
{
}

/// The listing of a kind counts the files of that kind.
pub proof fn listed_paths_are_of_the_kind(v: Seq<IacFileView>, label: Seq<char>, p: Seq<char>)
    ensures
        iac::paths_with(v, label).contains(p) <==> exists|k: int|
            0 <= k < v.len() && iac::label_of((#[trigger] v[k]).iac_type) == label && v[k].rel_path
                == p,
    decreases v.len(),
{
    if v.len() > 0 {
        let w = v.drop_last();
        listed_paths_are_of_the_kind(w, label, p);
        let before = iac::paths_with(w, label);
        let all = iac::paths_with(v, label);
        if all.contains(p) {
            let k = choose|k: int| 0 <= k < all.len() && all[k] == p;
            if k < before.len() {
                assert(before[k] == p);
                let m = choose|m: int|
                    0 <= m < w.len() && iac::label_of((#[trigger] w[m]).iac_type) == label
                        && w[m].rel_path == p;
                assert(v[m] == w[m]);
            } else {
                assert(v[v.len() - 1].rel_path == p);
            }
        }
        if exists|k: int|
            0 <= k < v.len() && iac::label_of((#[trigger] v[k]).iac_type) == label && v[k].rel_path
                == p {
            let k = choose|k: int|
                0 <= k < v.len() && iac::label_of((#[trigger] v[k]).iac_type) == label
                    && v[k].rel_path == p;
            if k < w.len() {
                assert(w[k] == v[k]);
                let m = choose|m: int| 0 <= m < before.len() && before[m] == p;
                assert(all[m] == p);
            } else {
                assert(all[before.len() as int] == p);
            }
        }
    }
}

} // verus!
