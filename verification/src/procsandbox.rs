//! Commands that can reach nothing but the proxy: how they are run under the
//! sandbox of the operating system.

use vstd::prelude::*;
use crate::digits;
use crate::text;

verus! {

broadcast use {
    vstd::seq::group_seq_axioms,
    vstd::string::group_string_axioms,
    text::views_push,
    text::views_empty,
};

/// There is no sandbox, and why.
#[derive(Debug, Clone)]
pub struct SandboxUnavailable(pub String);

impl SandboxUnavailable {
    pub fn message(&self) -> (r: String)
        ensures
            r@ == "sandbox unavailable: "@ + self.0@,
    {
        let mut s = "sandbox unavailable: ".to_owned();
        s.push_str(&self.0);
        s
    }
}

/// A command under the sandbox: what is run in its place, and the environment
/// that leads it to the proxy.
pub struct Confined {
    pub program: String,
    pub args: Vec<String>,
    pub env: Vec<(String, String)>,
}

pub struct ConfinedView {
    pub program: Seq<char>,
    pub args: Seq<Seq<char>>,
    pub env: Seq<(Seq<char>, Seq<char>)>,
}

pub open spec fn pairs(v: Seq<(String, String)>) -> Seq<(Seq<char>, Seq<char>)> {
    v.map_values(|p: (String, String)| (p.0@, p.1@))
}

impl View for Confined {
    type V = ConfinedView;

    open spec fn view(&self) -> ConfinedView {
        ConfinedView {
            program: self.program@,
            args: text::views(self.args@),
            env: pairs(self.env@),
        }
    }
}

/// The variables that lead a program to a proxy.
pub open spec fn proxy_vars(url: Seq<char>) -> Seq<(Seq<char>, Seq<char>)> {
    Seq::<(Seq<char>, Seq<char>)>::empty().push(("HTTP_PROXY"@, url)).push(
        ("HTTPS_PROXY"@, url),
    ).push(("ALL_PROXY"@, url)).push(("http_proxy"@, url)).push(("https_proxy"@, url)).push(
        ("all_proxy"@, url),
    )
}

fn push_pair(v: &mut Vec<(String, String)>, name: &str, value: &str)
    ensures
        pairs(final(v)@) == pairs(old(v)@).push((name@, value@)),
{
    let ghost before = v@;
    let p = (name.to_owned(), value.to_owned());
    let ghost shown = (p.0@, p.1@);
    v.push(p);
    assert(pairs(v@) =~= pairs(before).push(shown));
}

/// The variables that lead a program to a proxy.
pub fn proxy_env(url: &str) -> (r: Vec<(String, String)>)
    ensures
        pairs(r@) == proxy_vars(url@),
{
    let mut v: Vec<(String, String)> = Vec::new();
    assert(pairs(v@) =~= Seq::<(Seq<char>, Seq<char>)>::empty());
    push_pair(&mut v, "HTTP_PROXY", url);
    push_pair(&mut v, "HTTPS_PROXY", url);
    push_pair(&mut v, "ALL_PROXY", url);
    push_pair(&mut v, "http_proxy", url);
    push_pair(&mut v, "https_proxy", url);
    push_pair(&mut v, "all_proxy", url);
    v
}

/// What a machine has to confine commands with.
pub enum Host {
    /// Seatbelt: whether its tool is there, where the profile was written, and
    /// the address of the proxy.
    Macos { tool: bool, profile: String, proxy_url: String },
    /// Bubblewrap: whether it is there, the socket of the proxy, its port, and
    /// the program that relays to the socket.
    Linux { tool: bool, socket: Option<String>, port: u16, relay: String },
    /// Neither.
    Other,
}

/// The rules for Seatbelt: nothing outside, but for the proxy's port.
pub fn seatbelt_profile(port: u16) -> (r: String)
    ensures
        r@ == "(version 1)\n(allow default)\n(deny network-outbound (remote ip))\n(allow network-outbound (remote ip \"localhost:"@
            + digits::dec(port as nat) + "\"))\n"@,
{
    let mut s =
        "(version 1)\n(allow default)\n(deny network-outbound (remote ip))\n(allow network-outbound (remote ip \"localhost:".to_owned();
    let n = digits::u64_to_string(port as u64);
    s.push_str(&n);
    s.push_str("\"))\n");
    s
}

/// What comes before a command under Seatbelt.
pub open spec fn seatbelt_args(profile: Seq<char>) -> Seq<Seq<char>> {
    Seq::<Seq<char>>::empty().push("-f"@).push(profile).push("--"@)
}

/// What comes before a command under bubblewrap: a network of its own, and in it
/// the relay to the proxy's socket.
pub open spec fn bwrap_args(relay: Seq<char>, socket: Seq<char>, port: u16) -> Seq<Seq<char>> {
    Seq::<Seq<char>>::empty().push("--unshare-net"@).push("--die-with-parent"@).push(
        "--bind"@,
    ).push("/"@).push("/"@).push("--dev"@).push("/dev"@).push("--proc"@).push("/proc"@).push(
        "--"@,
    ).push(relay).push("__egress-relay"@).push("--unix"@).push(socket).push("--port"@).push(
        digits::dec(port as nat),
    ).push("--"@)
}

/// A command under the sandbox, or why it cannot be run.
pub open spec fn confined(program: Seq<char>, args: Seq<Seq<char>>, host: Host) -> Result<
    ConfinedView,
    Seq<char>,
> {
    match host {
        Host::Macos { tool, profile, proxy_url } => if tool {
            Ok(
                ConfinedView {
                    program: "sandbox-exec"@,
                    args: seatbelt_args(profile@).push(program) + args,
                    env: proxy_vars(proxy_url@),
                },
            )
        } else {
            Err("sandbox-exec not found (unexpected on macOS)"@)
        },
        Host::Linux { tool, socket, port, relay } => if !tool {
            Err(
                "bubblewrap (bwrap) not installed — install it to enable the egress sandbox on Linux"@,
            )
        } else {
            match socket {
                None => Err("egress proxy has no unix socket to relay through"@),
                Some(s) => Ok(
                    ConfinedView {
                        program: "bwrap"@,
                        args: bwrap_args(relay@, s@, port).push(program) + args,
                        env: proxy_vars("http://127.0.0.1:"@ + digits::dec(port as nat)),
                    },
                ),
            }
        },
        Host::Other => Err("no sandbox on this platform"@),
    }
}

pub open spec fn result_view(r: Result<Confined, SandboxUnavailable>) -> Result<
    ConfinedView,
    Seq<char>,
> {
    match r {
        Ok(c) => Ok(c@),
        Err(e) => Err(e.0@),
    }
}

fn add_command(v: &mut Vec<String>, program: &str, args: &Vec<String>)
    ensures
        text::views(final(v)@) == text::views(old(v)@).push(program@) + text::views(args@),
{
    v.push(program.to_owned());
    let ghost a = v@;
    let mut tail = text::clone_strings(args);
    let ghost b = tail@;
    v.append(&mut tail);
    assert(text::views(a + b) =~= text::views(a) + text::views(b));
}

/// Puts a command under the sandbox of its machine. Where there is none the
/// command is not run.
pub fn confine(program: &str, args: &Vec<String>, host: &Host) -> (r: Result<
    Confined,
    SandboxUnavailable,
>)
    ensures
        result_view(r) == confined(program@, text::views(args@), *host),
{
    match host {
        Host::Macos { tool, profile, proxy_url } => {
            if !*tool {
                return Err(
                    SandboxUnavailable("sandbox-exec not found (unexpected on macOS)".to_owned()),
                );
            }
            let mut v: Vec<String> = Vec::new();
            v.push("-f".to_owned());
            v.push(profile.clone());
            v.push("--".to_owned());
            add_command(&mut v, program, args);
            Ok(Confined { program: "sandbox-exec".to_owned(), args: v, env: proxy_env(proxy_url) })
        },
        Host::Linux { tool, socket, port, relay } => {
            if !*tool {
                return Err(
                    SandboxUnavailable(
                        "bubblewrap (bwrap) not installed — install it to enable the egress sandbox on Linux".to_owned(),
                    ),
                );
            }
            match socket {
                None => Err(
                    SandboxUnavailable("egress proxy has no unix socket to relay through".to_owned()),
                ),
                Some(s) => {
                    let n = digits::u64_to_string(*port as u64);
                    let mut v: Vec<String> = Vec::new();
                    v.push("--unshare-net".to_owned());
                    v.push("--die-with-parent".to_owned());
                    v.push("--bind".to_owned());
                    v.push("/".to_owned());
                    v.push("/".to_owned());
                    v.push("--dev".to_owned());
                    v.push("/dev".to_owned());
                    v.push("--proc".to_owned());
                    v.push("/proc".to_owned());
                    v.push("--".to_owned());
                    v.push(relay.clone());
                    v.push("__egress-relay".to_owned());
                    v.push("--unix".to_owned());
                    v.push(s.clone());
                    v.push("--port".to_owned());
                    v.push(n.clone());
                    v.push("--".to_owned());
                    add_command(&mut v, program, args);
                    let mut url = "http://127.0.0.1:".to_owned();
                    url.push_str(&n);
                    Ok(Confined { program: "bwrap".to_owned(), args: v, env: proxy_env(&url) })
                },
            }
        },
        Host::Other => Err(SandboxUnavailable("no sandbox on this platform".to_owned())),
    }
}

/// The program that relays: this one, or the one that stands in the folder above
/// where this one is a test.
pub fn relay_program(exe: &str, name: &Option<String>, sibling: &Option<String>) -> (r: String)
    ensures
        r@ == if text::opt_view(*name) == Some("strobes"@) {
            exe@
        } else {
            text::text_or(text::opt_view(*sibling), exe@)
        },
{
    if text::opt_is(name, "strobes") {
        exe.to_owned()
    } else {
        text::opt_or(sibling, exe)
    }
}

/// A command is only ever run under a sandbox: what is run is the sandbox's own
/// program, with the whole command behind its arguments, and every variable for
/// a proxy is set.
pub proof fn commands_only_run_confined(program: Seq<char>, args: Seq<Seq<char>>, host: Host)
    ensures
        confined(program, args, host) matches Ok(c) ==> ({
            &&& c.program == "sandbox-exec"@ || c.program == "bwrap"@
            &&& exists|head: Seq<Seq<char>>| c.args == #[trigger] head.push(program) + args
            &&& c.env.len() == 6
            &&& forall|i: int, j: int| 0 <= i < 6 && 0 <= j < 6 ==> c.env[i].1 == c.env[j].1
        }),
{
    match host {
        Host::Macos { tool, profile, proxy_url } => {
            if tool {
                let head = seatbelt_args(profile@);
                assert(confined(program, args, host)->Ok_0.args == head.push(program) + args);
            }
        },
        Host::Linux { tool, socket, port, relay } => {
            if tool && socket is Some {
                let head = bwrap_args(relay@, socket->0@, port);
                assert(confined(program, args, host)->Ok_0.args == head.push(program) + args);
            }
        },
        Host::Other => {},
    }
}

} // verus!
