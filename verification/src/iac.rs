//! Infrastructure files: what kind a file is, and the list of them.

use vstd::prelude::*;
use crate::digits;
use crate::order;
use crate::pieces;
use crate::prompts;
use crate::scan;
use crate::text;

verus! {

broadcast use {
    vstd::seq::group_seq_axioms,
    vstd::string::group_string_axioms,
    text::views_push,
    text::views_empty,
};

/// The kinds of infrastructure files.
#[derive(Clone, Copy, Debug, PartialEq, Eq, Structural)]
pub enum IacType {
    Terraform,
    CloudFormation,
    Kubernetes,
    Helm,
    Dockerfile,
    DockerCompose,
    GitHubActions,
    Ansible,
    ArmTemplate,
}

pub open spec fn label_of(t: IacType) -> Seq<char> {
    match t {
        IacType::Terraform => "Terraform"@,
        IacType::CloudFormation => "CloudFormation"@,
        IacType::Kubernetes => "Kubernetes"@,
        IacType::Helm => "Helm"@,
        IacType::Dockerfile => "Dockerfile"@,
        IacType::DockerCompose => "Docker Compose"@,
        IacType::GitHubActions => "GitHub Actions"@,
        IacType::Ansible => "Ansible"@,
        IacType::ArmTemplate => "ARM Template"@,
    }
}

pub open spec fn slug_of(t: IacType) -> Seq<char> {
    match t {
        IacType::Terraform => "terraform"@,
        IacType::CloudFormation => "cloudformation"@,
        IacType::Kubernetes => "kubernetes"@,
        IacType::Helm => "helm"@,
        IacType::Dockerfile => "dockerfile"@,
        IacType::DockerCompose => "compose"@,
        IacType::GitHubActions => "github-actions"@,
        IacType::Ansible => "ansible"@,
        IacType::ArmTemplate => "arm"@,
    }
}

impl IacType {
    /// The name that is shown.
    pub fn label(&self) -> (r: &'static str)
        ensures
            r@ == label_of(*self),
    {
        match self {
            IacType::Terraform => "Terraform",
            IacType::CloudFormation => "CloudFormation",
            IacType::Kubernetes => "Kubernetes",
            IacType::Helm => "Helm",
            IacType::Dockerfile => "Dockerfile",
            IacType::DockerCompose => "Docker Compose",
            IacType::GitHubActions => "GitHub Actions",
            IacType::Ansible => "Ansible",
            IacType::ArmTemplate => "ARM Template",
        }
    }

    /// The name that the user selects it by.
    pub fn slug(&self) -> (r: &'static str)
        ensures
            r@ == slug_of(*self),
    {
        match self {
            IacType::Terraform => "terraform",
            IacType::CloudFormation => "cloudformation",
            IacType::Kubernetes => "kubernetes",
            IacType::Helm => "helm",
            IacType::Dockerfile => "dockerfile",
            IacType::DockerCompose => "compose",
            IacType::GitHubActions => "github-actions",
            IacType::Ansible => "ansible",
            IacType::ArmTemplate => "arm",
        }
    }
}

// ---- kinds -------------------------------------------------------------------------------

/// Directories that are not searched.
pub const IAC_SKIP_DIRS: [&'static str; 15] = [
    ".git",
    ".svn",
    "node_modules",
    "__pycache__",
    "target",
    "dist",
    "build",
    ".next",
    "vendor",
    "venv",
    ".venv",
    ".tox",
    ".cache",
    ".terraform",
    ".terragrunt-cache",
];

/// Whether a directory of that name is not searched.
pub fn is_skipped_dir(name: &str) -> (r: bool)
    ensures
        r == scan::listed(IAC_SKIP_DIRS@, name@),
{
    let dirs = IAC_SKIP_DIRS;
    scan::is_listed(&dirs, name)
}

/// A YAML text has the trigger key of a workflow.
pub open spec fn has_trigger(c: Seq<char>) -> bool {
    text::starts_with(c, "on:"@) || text::contains(c, "\non:"@) || text::starts_with(c, "\"on\""@)
        || text::contains(c, "\n\"on\":"@)
}

/// The kind of a YAML file by its beginning.
pub open spec fn yaml_kind(c: Seq<char>, name: Seq<char>) -> Option<IacType> {
    if (text::ends_with(name, ".yml"@) || text::ends_with(name, ".yaml"@)) && has_trigger(c)
        && text::contains(c, "jobs:"@) {
        Some(IacType::GitHubActions)
    } else if text::contains(c, "AWSTemplateFormatVersion"@) || text::contains(c, "Type: AWS::"@)
        || text::contains(c, "Type: \"AWS::"@) {
        Some(IacType::CloudFormation)
    } else if text::contains(c, "apiVersion:"@) && text::contains(c, "kind:"@) {
        if text::contains(c, "{{"@) {
            None
        } else {
            Some(IacType::Kubernetes)
        }
    } else if text::contains(c, "services:"@) && (text::contains(c, "image:"@) || text::contains(
        c,
        "build:"@,
    )) {
        Some(IacType::DockerCompose)
    } else if text::starts_with(pieces::trim_start(c), "- "@) && text::contains(c, "hosts:"@)
        && text::contains(c, "tasks:"@) {
        Some(IacType::Ansible)
    } else {
        None
    }
}

/// The kind of a YAML file by its beginning.
pub fn sniff_yaml(c: &str, name: &str) -> (r: Option<IacType>)
    ensures
        r == yaml_kind(c@, name@),
{
    if text::str_ends_with(name, ".yml") || text::str_ends_with(name, ".yaml") {
        let on = text::str_starts_with(c, "on:") || text::str_contains(c, "\non:")
            || text::str_starts_with(c, "\"on\"") || text::str_contains(c, "\n\"on\":");
        if on && text::str_contains(c, "jobs:") {
            return Some(IacType::GitHubActions);
        }
    }
    if text::str_contains(c, "AWSTemplateFormatVersion") || text::str_contains(c, "Type: AWS::")
        || text::str_contains(c, "Type: \"AWS::") {
        return Some(IacType::CloudFormation);
    }
    if text::str_contains(c, "apiVersion:") && text::str_contains(c, "kind:") {
        if text::str_contains(c, "{{") {
            return None;
        }
        return Some(IacType::Kubernetes);
    }
    if text::str_contains(c, "services:") && (text::str_contains(c, "image:")
        || text::str_contains(c, "build:")) {
        return Some(IacType::DockerCompose);
    }
    let t = pieces::str_trim_start(c);
    if text::str_starts_with(&t, "- ") && text::str_contains(c, "hosts:") && text::str_contains(
        c,
        "tasks:",
    ) {
        return Some(IacType::Ansible);
    }
    None
}

/// The kind of a JSON file by its beginning.
pub open spec fn json_kind(c: Seq<char>) -> Option<IacType> {
    if text::contains(c, "\"$schema\""@) && text::contains(c, "deploymentTemplate"@) {
        Some(IacType::ArmTemplate)
    } else if text::contains(c, "AWSTemplateFormatVersion"@) {
        Some(IacType::CloudFormation)
    } else {
        None
    }
}

/// The kind of a JSON file by its beginning.
pub fn sniff_json(c: &str) -> (r: Option<IacType>)
    ensures
        r == json_kind(c@),
{
    if text::str_contains(c, "\"$schema\"") && text::str_contains(c, "deploymentTemplate") {
        Some(IacType::ArmTemplate)
    } else if text::str_contains(c, "AWSTemplateFormatVersion") {
        Some(IacType::CloudFormation)
    } else {
        None
    }
}

/// How many bytes at the beginning of a file with that extension have a say.
pub open spec fn sniffed_bytes(ext: Seq<char>) -> usize {
    if ext == "yaml"@ || ext == "yml"@ {
        4096
    } else if ext == "json"@ {
        2048
    } else {
        0
    }
}

/// How many bytes at the beginning of a file with that extension have a say.
pub fn head_size(ext: &str) -> (r: usize)
    ensures
        r == sniffed_bytes(ext@),
{
    if text::str_eq(ext, "yaml") || text::str_eq(ext, "yml") {
        4096
    } else if text::str_eq(ext, "json") {
        2048
    } else {
        0
    }
}

/// The kind of a file that its name and the names of the directory it stands in
/// and of the one above give away.
pub open spec fn place_kind(
    name: Seq<char>,
    ext: Seq<char>,
    parent: Seq<char>,
    above: Seq<char>,
) -> Option<IacType> {
    if name == "template.yaml"@ || (text::starts_with(name, "cloudformation"@) && ext == "yml"@) {
        Some(IacType::CloudFormation)
    } else if name == "values.yaml"@ {
        Some(IacType::Helm)
    } else if above == ".github"@ && parent == "workflows"@ && ext == "yml"@ {
        Some(IacType::GitHubActions)
    } else if name == "playbook.yml"@ || name == "site.yml"@ || (parent == "tasks"@ && name
        == "main.yml"@) {
        Some(IacType::Ansible)
    } else if name == "azuredeploy.json"@ {
        Some(IacType::ArmTemplate)
    } else {
        None
    }
}

fn classify_by_place(name: &str, ext: &str, parent: &str, above: &str) -> (r: Option<IacType>)
    ensures
        r == place_kind(name@, ext@, parent@, above@),
{
    if text::str_eq(name, "template.yaml") || (text::str_starts_with(name, "cloudformation")
        && text::str_eq(ext, "yml")) {
        return Some(IacType::CloudFormation);
    }
    if text::str_eq(name, "values.yaml") {
        return Some(IacType::Helm);
    }
    if text::str_eq(above, ".github") && text::str_eq(parent, "workflows") && text::str_eq(
        ext,
        "yml",
    ) {
        return Some(IacType::GitHubActions);
    }
    if text::str_eq(name, "playbook.yml") || text::str_eq(name, "site.yml") || (text::str_eq(
        parent,
        "tasks",
    ) && text::str_eq(name, "main.yml")) {
        return Some(IacType::Ansible);
    }
    if text::str_eq(name, "azuredeploy.json") {
        return Some(IacType::ArmTemplate);
    }
    None
}

/// The kind of a file by its name, its extension, its beginning and the names of
/// the directory that it stands in and of the one above. The templates of a
/// chart are told by their directory where their content does not say more.
pub open spec fn file_kind(
    name: Seq<char>,
    ext: Seq<char>,
    head: Seq<char>,
    parent: Seq<char>,
    above: Seq<char>,
) -> Option<IacType> {
    if name == "Dockerfile"@ || text::starts_with(name, "Dockerfile."@) {
        Some(IacType::Dockerfile)
    } else if name == "docker-compose.yml"@ || name == "docker-compose.yaml"@ || name
        == "compose.yml"@ || name == "compose.yaml"@ {
        Some(IacType::DockerCompose)
    } else if name == "Chart.yaml"@ || name == "Chart.yml"@ {
        Some(IacType::Helm)
    } else if name == "Pulumi.yaml"@ || name == "Pulumi.yml"@ {
        None
    } else if ext == "tf"@ || ext == "tfvars"@ {
        Some(IacType::Terraform)
    } else if place_kind(name, ext, parent, above) is Some {
        place_kind(name, ext, parent, above)
    } else if ext == "yaml"@ || ext == "yml"@ {
        if yaml_kind(head, name) is None && parent == "templates"@ && ext == "yaml"@ {
            Some(IacType::Helm)
        } else {
            yaml_kind(head, name)
        }
    } else if ext == "json"@ {
        json_kind(head)
    } else {
        None
    }
}

/// The kind of a file by its name, its extension, its beginning and the names of
/// the directory that it stands in and of the one above.
pub fn classify_iac_file(name: &str, ext: &str, head: &str, parent: &str, above: &str) -> (r: Option<
    IacType,
>)
    ensures
        r == file_kind(name@, ext@, head@, parent@, above@),
{
    if text::str_eq(name, "Dockerfile") || text::str_starts_with(name, "Dockerfile.") {
        return Some(IacType::Dockerfile);
    }
    if text::str_eq(name, "docker-compose.yml") || text::str_eq(name, "docker-compose.yaml")
        || text::str_eq(name, "compose.yml") || text::str_eq(name, "compose.yaml") {
        return Some(IacType::DockerCompose);
    }
    if text::str_eq(name, "Chart.yaml") || text::str_eq(name, "Chart.yml") {
        return Some(IacType::Helm);
    }
    if text::str_eq(name, "Pulumi.yaml") || text::str_eq(name, "Pulumi.yml") {
        return None;
    }
    if text::str_eq(ext, "tf") || text::str_eq(ext, "tfvars") {
        return Some(IacType::Terraform);
    }
    if let Some(k) = classify_by_place(name, ext, parent, above) {
        return Some(k);
    }
    if text::str_eq(ext, "yaml") || text::str_eq(ext, "yml") {
        return match sniff_yaml(head, name) {
            Some(k) => Some(k),
            None => if text::str_eq(parent, "templates") && text::str_eq(ext, "yaml") {
                Some(IacType::Helm)
            } else {
                None
            },
        };
    }
    if text::str_eq(ext, "json") {
        return sniff_json(head);
    }
    None
}

// ---- the list ----------------------------------------------------------------------------

/// An infrastructure file: its place among all files of the search, its path
/// below the root, and its kind.
pub struct IacFile {
    pub index: usize,
    pub rel_path: String,
    pub iac_type: IacType,
}

pub struct IacFileView {
    pub index: usize,
    pub rel_path: Seq<char>,
    pub iac_type: IacType,
}

impl View for IacFile {
    type V = IacFileView;

    open spec fn view(&self) -> IacFileView {
        IacFileView { index: self.index, rel_path: self.rel_path@, iac_type: self.iac_type }
    }
}

pub open spec fn files(v: Seq<IacFile>) -> Seq<IacFileView> {
    v.map_values(|f: IacFile| f@)
}

/// A file comes before another: by label, then by path.
pub open spec fn file_before(a: IacFileView, b: IacFileView) -> bool {
    order::precedes(label_of(a.iac_type), label_of(b.iac_type)) || (label_of(a.iac_type)
        == label_of(b.iac_type) && order::precedes(a.rel_path, b.rel_path))
}

/// A file in its place, behind those that it does not come before.
pub open spec fn placed(s: Seq<IacFileView>, f: IacFileView) -> Seq<IacFileView>
    decreases s.len(),
{
    if s.len() == 0 {
        seq![f]
    } else if file_before(f, s.last()) {
        placed(s.drop_last(), f).push(s.last())
    } else {
        s.push(f)
    }
}

/// A file is of a kind that the user selected; every kind is where there is no
/// selection.
pub open spec fn selected(f: IacFileView, only: Seq<Seq<char>>) -> bool {
    only.len() == 0 || only.contains(slug_of(f.iac_type))
}

/// The selected files in order.
pub open spec fn arranged(v: Seq<IacFileView>, only: Seq<Seq<char>>) -> Seq<IacFileView>
    decreases v.len(),
{
    if v.len() == 0 {
        Seq::empty()
    } else {
        let before = arranged(v.drop_last(), only);
        if selected(v.last(), only) {
            placed(before, v.last())
        } else {
            before
        }
    }
}

fn is_before(a: &IacFile, b: &IacFile) -> (r: bool)
    ensures
        r == file_before(a@, b@),
{
    let x = a.iac_type.label();
    let y = b.iac_type.label();
    order::str_precedes(x, y) || (text::str_eq(x, y) && order::str_precedes(
        &a.rel_path,
        &b.rel_path,
    ))
}

fn place(s: &mut Vec<IacFile>, f: IacFile)
    ensures
        files(final(s)@) == placed(files(old(s)@), f@),
{
    let ghost all = files(s@);
    let n: usize = s.len();
    let mut k: usize = n;
    assert(all.take(n as int) =~= all);
    assert(placed(all, f@) =~= placed(all.take(n as int), f@) + all.skip(n as int));
    while k > 0 && is_before(&f, &s[k - 1])
        invariant
            k <= n == s@.len(),
            s@ == old(s)@,
            all == files(s@),
            placed(all, f@) == placed(all.take(k as int), f@) + all.skip(k as int),
        decreases k,
    {
        assert(all.take(k as int).last() == s@[k - 1]@);
        assert(all.take(k as int).drop_last() =~= all.take(k - 1));
        assert(placed(all.take(k - 1), f@).push(all[k - 1]) + all.skip(k as int) =~= placed(
            all.take(k - 1),
            f@,
        ) + all.skip(k - 1));
        k -= 1;
    }
    if k > 0 {
        assert(all.take(k as int).last() == s@[k - 1]@);
    }
    s.insert(k, f);
    proof {
        assert(files(s@) =~= all.insert(k as int, f@));
        assert(all.take(k as int).push(f@) + all.skip(k as int) =~= all.insert(k as int, f@));
        if k == 0 {
            assert(all.take(0) =~= Seq::empty());
            assert(seq![f@] + all.skip(0) =~= all.insert(0, f@));
        }
    }
}

fn is_selected(f: &IacFile, only: &Vec<String>) -> (r: bool)
    ensures
        r == selected(f@, text::views(only@)),
{
    if only.len() == 0 {
        return true;
    }
    let slug = f.iac_type.slug();
    let mut i: usize = 0;
    while i < only.len()
        invariant
            i <= only@.len(),
            slug@ == slug_of(f.iac_type),
            forall|k: int| 0 <= k < i ==> (#[trigger] text::views(only@)[k]) != slug@,
        decreases only@.len() - i,
    {
        assert(text::views(only@)[i as int] == only@[i as int]@);
        if text::str_eq(&only[i], slug) {
            return true;
        }
        i += 1;
    }
    false
}

/// The selected files in order: by label, then by path.
pub fn detect_iac_files(v: &Vec<IacFile>, only: &Vec<String>) -> (r: Vec<IacFile>)
    ensures
        files(r@) == arranged(files(v@), text::views(only@)),
{
    let ghost all = files(v@);
    let mut out: Vec<IacFile> = Vec::new();
    assert(files(out@) =~= Seq::empty());
    let mut i: usize = 0;
    while i < v.len()
        invariant
            i <= v@.len(),
            all == files(v@),
            files(out@) == arranged(all.take(i as int), text::views(only@)),
        decreases v@.len() - i,
    {
        assert(all.take(i + 1).drop_last() =~= all.take(i as int));
        assert(all.take(i + 1).last() == v@[i as int]@);
        if is_selected(&v[i], only) {
            let f = IacFile {
                index: v[i].index,
                rel_path: v[i].rel_path.clone(),
                iac_type: v[i].iac_type,
            };
            place(&mut out, f);
        }
        i += 1;
    }
    assert(all.take(all.len() as int) =~= all);
    out
}

/// The paths of the files with a label, in order.
pub open spec fn paths_with(v: Seq<IacFileView>, label: Seq<char>) -> Seq<Seq<char>>
    decreases v.len(),
{
    if v.len() == 0 {
        Seq::empty()
    } else {
        let before = paths_with(v.drop_last(), label);
        if label_of(v.last().iac_type) == label {
            before.push(v.last().rel_path)
        } else {
            before
        }
    }
}

/// The labels of the files, each once, in order.
pub open spec fn labels(v: Seq<IacFileView>) -> Seq<Seq<char>> {
    order::in_order(v.map_values(|f: IacFileView| label_of(f.iac_type)))
}

/// The labels of the files, each once, in order.
pub fn type_labels(v: &Vec<IacFile>) -> (r: Vec<String>)
    ensures
        text::views(r@) == labels(files(v@)),
{
    let ghost all = files(v@);
    let ghost want = all.map_values(|f: IacFileView| label_of(f.iac_type));
    let mut out: Vec<String> = Vec::new();
    assert(want.take(0) =~= Seq::empty());
    let mut i: usize = 0;
    while i < v.len()
        invariant
            i <= v@.len(),
            all == files(v@),
            want == all.map_values(|f: IacFileView| label_of(f.iac_type)),
            text::views(out@) == want.take(i as int),
        decreases v@.len() - i,
    {
        assert(all[i as int] == v@[i as int]@);
        out.push(v[i].iac_type.label().to_owned());
        assert(want.take(i + 1) =~= want.take(i as int).push(want[i as int]));
        i += 1;
    }
    assert(want.take(want.len() as int) =~= want);
    order::sorted_words(&out)
}

/// The paths of the files with a label, in order.
pub fn paths_of(v: &Vec<IacFile>, label: &str) -> (r: Vec<String>)
    ensures
        text::views(r@) == paths_with(files(v@), label@),
{
    let ghost all = files(v@);
    let mut out: Vec<String> = Vec::new();
    let mut i: usize = 0;
    while i < v.len()
        invariant
            i <= v@.len(),
            all == files(v@),
            text::views(out@) == paths_with(all.take(i as int), label@),
        decreases v@.len() - i,
    {
        assert(all.take(i + 1).drop_last() =~= all.take(i as int));
        assert(all.take(i + 1).last() == v@[i as int]@);
        if text::str_eq(v[i].iac_type.label(), label) {
            out.push(v[i].rel_path.clone());
        }
        i += 1;
    }
    assert(all.take(all.len() as int) =~= all);
    out
}

/// The files of one kind as the agent is told of them.
pub open spec fn group_text(v: Seq<IacFileView>, label: Seq<char>) -> Seq<char> {
    let p = paths_with(v, label);
    "  "@ + label + " ("@ + digits::dec(p.len()) + " file(s)):\n"@ + pieces::join(
        p.map_values(|x: Seq<char>| "    - "@ + x),
        "\n"@,
    )
}

/// All files as the agent is told of them, kind by kind.
pub open spec fn type_summary(v: Seq<IacFileView>) -> Seq<char> {
    pieces::join(labels(v).map_values(|l: Seq<char>| group_text(v, l)), "\n"@)
}

fn group_string(v: &Vec<IacFile>, label: &str) -> (r: String)
    ensures
        r@ == group_text(files(v@), label@),
{
    let p = paths_of(v, label);
    let mut s = "  ".to_owned();
    s.push_str(label);
    s.push_str(" (");
    let n = digits::usize_to_string(p.len());
    s.push_str(&n);
    s.push_str(" file(s)):\n");
    let marked = prompts::prefixed("    - ", &p);
    let j = pieces::str_join(&marked, "\n");
    s.push_str(&j);
    s
}

/// What the agent is asked about the infrastructure files of a project.
pub fn build_iac_prompt(target: &str, v: &Vec<IacFile>) -> (r: String)
    ensures
        r@ == prompts::iac_request(target@, type_summary(files(v@))),
{
    let names = type_labels(v);
    let ghost all = files(v@);
    let ghost want = labels(all).map_values(|l: Seq<char>| group_text(all, l));
    let mut out: Vec<String> = Vec::new();
    assert(want.take(0) =~= Seq::empty());
    let mut i: usize = 0;
    while i < names.len()
        invariant
            i <= names@.len(),
            all == files(v@),
            text::views(names@) == labels(all),
            want == labels(all).map_values(|l: Seq<char>| group_text(all, l)),
            text::views(out@) == want.take(i as int),
        decreases names@.len() - i,
    {
        assert(text::views(names@)[i as int] == names@[i as int]@);
        out.push(group_string(v, &names[i]));
        assert(want.take(i + 1) =~= want.take(i as int).push(want[i as int]));
        i += 1;
    }
    assert(want.take(want.len() as int) =~= want);
    let summary = pieces::str_join(&out, "\n");
    prompts::iac_prompt(target, &summary)
}

/// Placing a file keeps all others and adds the one.
proof fn placed_counts(s: Seq<IacFileView>, f: IacFileView)
    ensures
        placed(s, f).to_multiset() =~= s.to_multiset().insert(f),
    decreases s.len(),
{
    broadcast use vstd::seq_lib::group_to_multiset_ensures;

    if s.len() == 0 {
        assert(placed(s, f) =~= Seq::empty().push(f));
        assert(s =~= Seq::empty());
    } else if file_before(f, s.last()) {
        placed_counts(s.drop_last(), f);
        assert(s =~= s.drop_last().push(s.last()));
    }
}

/// Without a selection the list holds every file, none twice and none added.
pub proof fn arranging_only_reorders(v: Seq<IacFileView>)
    ensures
        arranged(v, Seq::empty()).to_multiset() =~= v.to_multiset(),
    decreases v.len(),
{
    broadcast use vstd::seq_lib::group_to_multiset_ensures;

    if v.len() > 0 {
        arranging_only_reorders(v.drop_last());
        placed_counts(arranged(v.drop_last(), Seq::empty()), v.last());
        assert(v =~= v.drop_last().push(v.last()));
    } else {
        assert(v =~= Seq::empty());
    }
}

} // verus!
