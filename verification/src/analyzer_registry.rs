//! Analyzers that run in containers: the credentials for their registry, and the
//! commands that fetch and run them.

use vstd::prelude::*;
use crate::codec;
use crate::config;
use crate::config::Profile;
use crate::digits;
use crate::json;
use crate::json::Json;
use crate::pieces;
use crate::text;

verus! {

broadcast use {
    vstd::seq::group_seq_axioms,
    vstd::string::group_string_axioms,
    text::views_push,
    text::views_empty,
    json::fields_push,
    json::fields_empty,
};

/// The kinds of scans.
#[derive(Clone, Copy, Debug, PartialEq, Eq, Structural)]
pub enum ScanType {
    Sast,
    Sca,
    Container,
    Iac,
    Dast,
}

pub open spec fn repository(t: ScanType) -> Seq<char> {
    match t {
        ScanType::Sast => "analyzers/strobessastanalyzer"@,
        ScanType::Sca => "analyzers/dependency"@,
        ScanType::Container => "analyzers/trivyanalyzer"@,
        ScanType::Iac => "analyzers/checkovanalyzer"@,
        ScanType::Dast => "analyzers/zapanalyzer"@,
    }
}

pub open spec fn scan_label(t: ScanType) -> Seq<char> {
    match t {
        ScanType::Sast => "sast"@,
        ScanType::Sca => "sca"@,
        ScanType::Container => "container"@,
        ScanType::Iac => "iac"@,
        ScanType::Dast => "dast"@,
    }
}

impl ScanType {
    /// The repository of the analyzer.
    pub fn repo(&self) -> (r: &'static str)
        ensures
            r@ == repository(*self),
    {
        match self {
            ScanType::Sast => "analyzers/strobessastanalyzer",
            ScanType::Sca => "analyzers/dependency",
            ScanType::Container => "analyzers/trivyanalyzer",
            ScanType::Iac => "analyzers/checkovanalyzer",
            ScanType::Dast => "analyzers/zapanalyzer",
        }
    }

    pub fn label(&self) -> (r: &'static str)
        ensures
            r@ == scan_label(*self),
    {
        match self {
            ScanType::Sast => "sast",
            ScanType::Sca => "sca",
            ScanType::Container => "container",
            ScanType::Iac => "iac",
            ScanType::Dast => "dast",
        }
    }
}

/// Credentials for the registry, for a short time.
#[derive(Debug, Clone)]
pub struct AnalyzerCreds {
    pub access_key_id: String,
    pub secret_access_key: String,
    pub session_token: String,
    pub expiration: String,
    pub region: String,
    pub registry_url: String,
    pub repository_filter: String,
}

/// What an analyzer left behind.
pub struct AnalyzerRun {
    pub stdout: String,
    pub stderr: String,
    pub exit_ok: bool,
    pub output_json: Option<Json>,
}

/// Where credentials are asked for, at the registry's own host.
pub fn credentials_url(base: &str, p: &Profile) -> (r: String)
    ensures
        r@ == base@ + config::prefix_of(p@) + "/organizations/"@ + p@.org_id
            + "/analyzer-registry/credentials/"@,
{
    let mut s = base.to_owned();
    s.push_str(p.api_prefix());
    s.push_str("/organizations/");
    s.push_str(&p.org_id);
    s.push_str("/analyzer-registry/credentials/");
    s
}

/// A request for credentials that last so many seconds.
pub fn credentials_body(secs: u64) -> (r: Json)
    ensures
        r@ == json::JsonView::Obj(
            json::no_entries().push(("duration_seconds"@, json::number(secs as nat))),
        ),
{
    let mut o = json::no_fields();
    json::put_number(&mut o, "duration_seconds", secs);
    Json::Obj(o)
}

/// What is said where no credentials are given.
pub fn credentials_error(code: u16, body: &str) -> (r: String)
    ensures
        r@ == "analyzer-registry credentials request failed: HTTP "@ + digits::dec(code as nat)
            + " "@ + text::prefix(body@, 300),
{
    let mut s = "analyzer-registry credentials request failed: HTTP ".to_owned();
    let n = digits::u64_to_string(code as u64);
    s.push_str(&n);
    s.push_str(" ");
    let t = text::str_prefix(body, 300);
    s.push_str(&t);
    s
}

/// The password in a registry's token, once it is decoded: what stands behind
/// the first colon.
pub open spec fn password_in(bytes: Option<Seq<u8>>) -> Result<Seq<char>, Seq<char>> {
    match bytes {
        None => Err("decoding ECR authorization token"@),
        Some(b) => if !vstd::utf8::valid_utf8(b) {
            Err("ECR authorization token is not UTF-8"@)
        } else {
            let t = vstd::utf8::decode_utf8(b);
            match pieces::index_of(t, ':') {
                Some(k) => Ok(t.skip(k + 1)),
                None => Err("unexpected ECR authorization token format"@),
            }
        },
    }
}

pub open spec fn opt_bytes(o: Option<Vec<u8>>) -> Option<Seq<u8>> {
    match o {
        Some(v) => Some(v@),
        None => None,
    }
}

/// The password in a registry's token, once it is decoded.
pub fn password_of(bytes: Option<Vec<u8>>) -> (r: Result<String, String>)
    ensures
        config::text_result(r) == password_in(opt_bytes(bytes)),
{
    match bytes {
        None => Err("decoding ECR authorization token".to_owned()),
        Some(b) => match codec::from_utf8(b) {
            None => Err("ECR authorization token is not UTF-8".to_owned()),
            Some(t) => {
                let v = text::chars_of(&t);
                let n: usize = v.len();
                match pieces::chars_index_from(&v, ':', 0) {
                    Some(k) => Ok(pieces::str_skip(&t, k + 1)),
                    None => Err("unexpected ECR authorization token format".to_owned()),
                }
            },
        },
    }
}

/// The password in a registry's token.
pub fn docker_password(token: &str) -> (r: Result<String, String>)
    ensures
        config::text_result(r) == password_in(codec::base64_bytes(token@)),
{
    let bytes = codec::base64_decode(token);
    password_of(bytes)
}

/// The image of an analyzer.
pub open spec fn image_text(registry: Seq<char>, t: ScanType, tag: Seq<char>) -> Seq<char> {
    registry + "/"@ + repository(t) + ":"@ + tag
}

/// The image of an analyzer.
pub fn image_ref(creds: &AnalyzerCreds, t: ScanType, tag: &str) -> (r: String)
    ensures
        r@ == image_text(creds.registry_url@, t, tag@),
{
    let mut s = creds.registry_url.clone();
    s.push_str("/");
    s.push_str(t.repo());
    s.push_str(":");
    s.push_str(tag);
    s
}

/// The arguments of `docker` that sign in to the registry. The password comes
/// in over the standard input.
pub fn login_args(creds: &AnalyzerCreds) -> (r: Vec<String>)
    ensures
        text::views(r@) == Seq::<Seq<char>>::empty().push("login"@).push("--username"@).push(
            "AWS"@,
        ).push("--password-stdin"@).push(creds.registry_url@),
{
    let mut v: Vec<String> = Vec::new();
    v.push("login".to_owned());
    v.push("--username".to_owned());
    v.push("AWS".to_owned());
    v.push("--password-stdin".to_owned());
    v.push(creds.registry_url.clone());
    v
}

/// The arguments of `docker` that run an analyzer.
pub fn run_args(rest: &Vec<String>) -> (r: Vec<String>)
    ensures
        text::views(r@) == Seq::<Seq<char>>::empty().push("run"@).push("--rm"@) + text::views(
            rest@,
        ),
{
    let mut v: Vec<String> = Vec::new();
    v.push("run".to_owned());
    v.push("--rm".to_owned());
    let ghost a = v@;
    let mut tail = text::clone_strings(rest);
    let ghost b = tail@;
    v.append(&mut tail);
    assert(text::views(a + b) =~= text::views(a) + text::views(b));
    v
}

/// Stands for the origin of a repository that has none.
pub const PLACEHOLDER_ORIGIN: &'static str = "https://example.invalid/strobes-cicd/local-scan.git";

/// The arguments of `git` that give a repository an origin.
pub fn add_origin_args(dir: &str) -> (r: Vec<String>)
    ensures
        text::views(r@) == Seq::<Seq<char>>::empty().push("-C"@).push(dir@).push("remote"@).push(
            "add"@,
        ).push("origin"@).push(PLACEHOLDER_ORIGIN@),
{
    let mut v: Vec<String> = Vec::new();
    v.push("-C".to_owned());
    v.push(dir.to_owned());
    v.push("remote".to_owned());
    v.push("add".to_owned());
    v.push("origin".to_owned());
    v.push(PLACEHOLDER_ORIGIN.to_owned());
    v
}

} // verus!
