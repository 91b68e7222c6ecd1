//! The bridge: a program on the user's machine that a workspace's commands run
//! through.

use vstd::prelude::*;
use crate::config;
use crate::digits;
use crate::editor;
use crate::json;
use crate::json::Json;
use crate::pack;
use crate::text;

verus! {

broadcast use {
    vstd::seq::group_seq_axioms,
    vstd::string::group_string_axioms,
    text::views_push,
    text::views_empty,
};

/// Where the bridge is published.
pub const BRIDGE_REPO: &'static str = "strobes-co/strobes-bridge";

/// How long a bridge may take to connect, in seconds.
pub const CONNECT_TIMEOUT_SECS: u64 = 45;

/// How often it is asked whether it has, in seconds.
pub const POLL_INTERVAL_SECS: u64 = 3;

/// What a new key is called.
pub const KEY_NAME: &'static str = "cli-auto-bridge";

// ---- the program ----------------------------------------------------------------------------------

/// The names of a machine's architecture in the bridge's releases.
pub open spec fn bridge_arch(arch: Seq<char>) -> Option<Seq<char>> {
    if arch == "x86_64"@ {
        Some("amd64"@)
    } else if arch == "aarch64"@ || arch == "arm64"@ {
        Some("arm64"@)
    } else {
        None
    }
}

/// The file of the bridge for a machine, or why there is none.
pub open spec fn asset_of(os: Seq<char>, arch: Seq<char>) -> Result<Seq<char>, Seq<char>> {
    if os != "macos"@ && os != "linux"@ && os != "windows"@ {
        Err("no strobes-bridge binary published for OS '"@ + os + "'"@)
    } else {
        match bridge_arch(arch) {
            None => Err("no strobes-bridge binary published for arch '"@ + arch + "'"@),
            Some(a) => if os == "macos"@ && a == "amd64"@ {
                Err(INTEL_MAC@)
            } else {
                Ok(
                    "strobes-shell-agent-"@ + os + "-"@ + a + (if os == "windows"@ {
                        ".exe"@
                    } else {
                        Seq::empty()
                    }),
                )
            },
        }
    }
}

/// What is said on a Mac with an Intel processor.
pub const INTEL_MAC: &'static str =
    "no strobes-bridge binary is published for macos-amd64 (Intel Mac) — the maintainers currently only ship Apple Silicon binaries. Ask your team to build/run the bridge manually, or use it from an Apple Silicon Mac / Linux / Windows machine instead.";

/// The file of the bridge for a machine, or why there is none.
pub fn asset_name(os: &str, arch: &str) -> (r: Result<String, String>)
    ensures
        config::text_result(r) == asset_of(os@, arch@),
{
    proof {
        reveal_strlit("macos");
        reveal_strlit("windows");
        reveal_strlit("amd64");
        reveal_strlit("arm64");
        assert("macos"@.len() != "windows"@.len());
        assert("amd64"@[1] != "arm64"@[1]);
    }
    let mac = text::str_eq(os, "macos");
    let windows = text::str_eq(os, "windows");
    if !mac && !text::str_eq(os, "linux") && !windows {
        let mut e = "no strobes-bridge binary published for OS '".to_owned();
        e.push_str(os);
        e.push_str("'");
        return Err(e);
    }
    let a = if text::str_eq(arch, "x86_64") {
        if mac {
            return Err(INTEL_MAC.to_owned());
        }
        "amd64"
    } else if text::str_eq(arch, "aarch64") || text::str_eq(arch, "arm64") {
        "arm64"
    } else {
        let mut e = "no strobes-bridge binary published for arch '".to_owned();
        e.push_str(arch);
        e.push_str("'");
        return Err(e);
    };
    let mut s = "strobes-shell-agent-".to_owned();
    s.push_str(os);
    s.push_str("-");
    s.push_str(a);
    if windows {
        s.push_str(".exe");
    } else {
        assert(s@ + Seq::<char>::empty() =~= s@);
    }
    Ok(s)
}

/// The file of the bridge once it is installed.
pub fn installed_name(windows: bool) -> (r: &'static str)
    ensures
        r@ == if windows {
            "strobes-shell-agent.exe"@
        } else {
            "strobes-shell-agent"@
        },
{
    if windows {
        "strobes-shell-agent.exe"
    } else {
        "strobes-shell-agent"
    }
}

/// The first of the files from `i` on that has a name.
pub open spec fn asset_at(v: Seq<json::JsonView>, name: Seq<char>, i: int) -> Option<json::JsonView>
    decreases v.len() - i,
{
    if i < 0 || i >= v.len() {
        None
    } else if json::as_text(json::field(v[i], "name"@)) == Some(name) {
        Some(v[i])
    } else {
        asset_at(v, name, i + 1)
    }
}

/// The files of a release, where it lists them.
pub open spec fn assets_of(release: json::JsonView) -> Option<Seq<json::JsonView>> {
    match json::field(release, "assets"@) {
        Some(json::JsonView::Arr(v)) => Some(v),
        _ => None,
    }
}

/// Where a file of a release is fetched from.
pub open spec fn url_in(release: json::JsonView, name: Seq<char>) -> Result<Seq<char>, Seq<char>> {
    match assets_of(release) {
        None => Err("release response had no assets"@),
        Some(v) => match asset_at(v, name, 0) {
            None => Err(
                "no asset named '"@ + name + "' in the latest strobes-bridge release"@,
            ),
            Some(a) => match json::as_text(json::field(a, "browser_download_url"@)) {
                None => Err("asset '"@ + name + "' has no download URL"@),
                Some(u) => Ok(u),
            },
        },
    }
}

fn find_asset<'a>(v: &'a Vec<Json>, name: &str) -> (r: Option<&'a Json>)
    ensures
        json::opt_value(r) == asset_at(json::values(v@), name@, 0),
{
    let ghost all = json::values(v@);
    let n: usize = v.len();
    let mut i: usize = 0;
    proof {
        json::values_index(v@);
    }
    while i < n
        invariant
            i <= n,
            n == v@.len(),
            all == json::values(v@),
            all.len() == n,
            asset_at(all, name@, 0) == asset_at(all, name@, i as int),
        decreases n - i,
    {
        proof {
            json::values_index(v@);
        }
        let t = json::opt_text(v[i].get("name"));
        if text::opt_is(&t, name) {
            return Some(&v[i]);
        }
        i += 1;
    }
    None
}

/// Where a file of a release is fetched from.
pub fn download_url(release: &Json, name: &str) -> (r: Result<String, String>)
    ensures
        config::text_result(r) == url_in(release@, name@),
{
    let v = match release.get("assets") {
        Some(j) => match j {
            Json::Arr(v) => v,
            _ => {
                return Err("release response had no assets".to_owned());
            },
        },
        None => {
            return Err("release response had no assets".to_owned());
        },
    };
    match find_asset(v, name) {
        None => {
            let mut e = "no asset named '".to_owned();
            e.push_str(name);
            e.push_str("' in the latest strobes-bridge release");
            Err(e)
        },
        Some(a) => match json::opt_text(a.get("browser_download_url")) {
            None => {
                let mut e = "asset '".to_owned();
                e.push_str(name);
                e.push_str("' has no download URL");
                Err(e)
            },
            Some(u) => Ok(u),
        },
    }
}

/// Why a bridge with these bytes is refused, where it is: `file` is what is
/// published on its digest.
pub fn verify_bridge(file: &str, name: &str, bytes: &Vec<u8>) -> (r: Option<String>)
    ensures
        text::opt_view(r) == pack::refusal(file@, name@, pack::sha256(bytes@), "this binary"@),
{
    pack::verify_download(file, name, bytes, "this binary")
}

/// The arguments that start the bridge, as the one that was made for it.
pub fn daemon_args(
    ws_base: &str,
    key: &str,
    org: &str,
    bridge_id: &str,
    pid_file: &str,
    log_file: &str,
) -> (r: Vec<String>)
    ensures
        text::views(r@) == Seq::<Seq<char>>::empty().push("connect"@).push("--url"@).push(
            ws_base@,
        ).push("--api-key"@).push(key@).push("--org-id"@).push(org@).push("--bridge-id"@).push(
            bridge_id@,
        ).push("--daemon"@).push("--pid-file"@).push(pid_file@).push("--log-file"@).push(
            log_file@,
        ),
{
    let mut v: Vec<String> = Vec::new();
    v.push("connect".to_owned());
    v.push("--url".to_owned());
    v.push(ws_base.to_owned());
    v.push("--api-key".to_owned());
    v.push(key.to_owned());
    v.push("--org-id".to_owned());
    v.push(org.to_owned());
    v.push("--bridge-id".to_owned());
    v.push(bridge_id.to_owned());
    v.push("--daemon".to_owned());
    v.push("--pid-file".to_owned());
    v.push(pid_file.to_owned());
    v.push("--log-file".to_owned());
    v.push(log_file.to_owned());
    v
}

// ---- shells -----------------------------------------------------------------------------------------

/// A shell that the backend knows.
#[derive(Debug, Clone)]
pub struct Shell {
    pub id: String,
    pub name: String,
    pub shell_type: String,
    pub bridge_id: Option<String>,
    pub bridge_connected: Option<bool>,
}

/// A bridge that is connected.
pub open spec fn usable(s: Shell) -> bool {
    s.shell_type@ == "bridge"@ && s.bridge_connected == Some(true)
}

/// The first bridge from `i` on that is connected.
pub open spec fn usable_from(v: Seq<Shell>, i: int) -> Option<int>
    decreases v.len() - i,
{
    if i < 0 || i >= v.len() {
        None
    } else if usable(v[i]) {
        Some(i)
    } else {
        usable_from(v, i + 1)
    }
}

fn is_connected(s: &Shell) -> (r: bool)
    ensures
        r == (s.bridge_connected == Some(true)),
{
    match s.bridge_connected {
        Some(b) => b,
        None => false,
    }
}

/// The bridge to use where one is connected already.
pub fn connected_bridge(v: &Vec<Shell>) -> (r: Option<usize>)
    ensures
        text::to_int(r) == usable_from(v@, 0),
        r matches Some(i) ==> i < v@.len() && usable(v@[i as int]),
{
    let n: usize = v.len();
    let mut i: usize = 0;
    while i < n
        invariant
            i <= n,
            n == v@.len(),
            usable_from(v@, 0) == usable_from(v@, i as int),
        decreases n - i,
    {
        if text::str_eq(&v[i].shell_type, "bridge") && is_connected(&v[i]) {
            return Some(i);
        }
        i += 1;
    }
    None
}

/// The shell of that id is connected.
pub open spec fn has_connected(v: Seq<Shell>, id: Seq<char>) -> bool {
    exists|i: int| 0 <= i < v.len() && (#[trigger] v[i]).id@ == id && v[i].bridge_connected == Some(
        true,
    )
}

/// What waiting for a bridge comes to.
pub enum Wait {
    Connected,
    Again,
    TimedOut(String),
}

/// What waiting for a bridge comes to: it is only over when the bridge is
/// connected or the time is up. `log` is where the bridge writes.
pub fn poll(v: &Vec<Shell>, id: &str, time_is_up: bool, secs: u64, log: &str) -> (r: Wait)
    ensures
        match r {
            Wait::Connected => has_connected(v@, id@),
            Wait::Again => !has_connected(v@, id@) && !time_is_up,
            Wait::TimedOut(e) => !has_connected(v@, id@) && time_is_up && e@
                == "bridge did not report as connected within "@ + digits::dec(secs as nat)
                + "s — check "@ + log@,
        },
{
    let n: usize = v.len();
    let mut i: usize = 0;
    while i < n
        invariant
            i <= n,
            n == v@.len(),
            forall|k: int|
                0 <= k < i ==> !((#[trigger] v@[k]).id@ == id@ && v@[k].bridge_connected == Some(
                    true,
                )),
        decreases n - i,
    {
        if text::str_eq(&v[i].id, id) && is_connected(&v[i]) {
            return Wait::Connected;
        }
        i += 1;
    }
    if time_is_up {
        let mut e = "bridge did not report as connected within ".to_owned();
        let d = digits::u64_to_string(secs);
        e.push_str(&d);
        e.push_str("s — check ");
        e.push_str(log);
        Wait::TimedOut(e)
    } else {
        Wait::Again
    }
}

/// The key that is kept, where it is of use.
pub fn cached_key(key: &Option<String>) -> (r: Option<String>)
    ensures
        text::opt_view(r) == match text::opt_view(*key) {
            Some(k) if k.len() > 0 => Some(k),
            _ => None,
        },
{
    match key {
        Some(k) => {
            if k.as_str().is_empty() {
                None
            } else {
                Some(k.clone())
            }
        },
        None => None,
    }
}

/// What a workspace's new shell is called.
pub fn shell_name(workspace: &str) -> (r: String)
    requires
        editor::can_cut(workspace@, 8),
    ensures
        r@ == "cli-"@ + editor::cut(workspace@, 8),
{
    let mut s = "cli-".to_owned();
    let short = editor::str_cut(workspace, 8);
    s.push_str(&short);
    s
}

/// The bridge of a new shell, which it has to have.
pub fn bridge_of(s: &Shell) -> (r: Result<String, String>)
    ensures
        config::text_result(r) == match text::opt_view(s.bridge_id) {
            Some(b) => Ok(b),
            None => Err("created shell '"@ + s.id@ + "' has no bridge_id"@),
        },
{
    match &s.bridge_id {
        Some(b) => Ok(b.clone()),
        None => {
            let mut e = "created shell '".to_owned();
            e.push_str(&s.id);
            e.push_str("' has no bridge_id");
            Err(e)
        },
    }
}

} // verus!
