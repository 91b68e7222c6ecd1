//! Tenants and their profiles.

use vstd::prelude::*;
use crate::digits;
use crate::editor;
use crate::ip;
use crate::ip::IpAddr;
use crate::netpolicy;
use crate::order;
use crate::pieces;
use crate::table;
use crate::table::Table;
use crate::text;
use crate::weburl;
use crate::weburl::UrlParts;

verus! {

broadcast use {
    vstd::seq::group_seq_axioms,
    vstd::map::group_map_axioms,
    vstd::string::group_string_axioms,
    text::views_push,
    text::views_empty,
};

/// How a tenant is reached.
#[derive(Debug, Clone)]
pub struct Profile {
    pub base_url: String,
    pub org_id: String,
    pub master_key: String,
    pub deployment: String,
    pub workspace_id: Option<String>,
    pub thread_id: Option<String>,
    pub shell_bridge_id: Option<String>,
    pub browser_id: Option<String>,
    pub verify_tls: bool,
}

pub struct ProfileView {
    pub base_url: Seq<char>,
    pub org_id: Seq<char>,
    pub master_key: Seq<char>,
    pub deployment: Seq<char>,
    pub workspace_id: Option<Seq<char>>,
    pub thread_id: Option<Seq<char>>,
    pub shell_bridge_id: Option<Seq<char>>,
    pub browser_id: Option<Seq<char>>,
    pub verify_tls: bool,
}

impl View for Profile {
    type V = ProfileView;

    open spec fn view(&self) -> ProfileView {
        ProfileView {
            base_url: self.base_url@,
            org_id: self.org_id@,
            master_key: self.master_key@,
            deployment: self.deployment@,
            workspace_id: text::opt_view(self.workspace_id),
            thread_id: text::opt_view(self.thread_id),
            shell_bridge_id: text::opt_view(self.shell_bridge_id),
            browser_id: text::opt_view(self.browser_id),
            verify_tls: self.verify_tls,
        }
    }
}

/// A profile that says nothing.
pub open spec fn empty_profile() -> ProfileView {
    ProfileView {
        base_url: Seq::empty(),
        org_id: Seq::empty(),
        master_key: Seq::empty(),
        deployment: Seq::empty(),
        workspace_id: None,
        thread_id: None,
        shell_bridge_id: None,
        browser_id: None,
        verify_tls: false,
    }
}

fn nothing() -> (r: String)
    ensures
        r@ == Seq::<char>::empty(),
{
    let r = "".to_owned();
    proof {
        reveal_strlit("");
        assert(r@ =~= Seq::<char>::empty());
    }
    r
}

impl Default for Profile {
    fn default() -> (r: Profile)
        ensures
            r@ == empty_profile(),
    {
        Profile {
            base_url: nothing(),
            org_id: nothing(),
            master_key: nothing(),
            deployment: nothing(),
            workspace_id: None,
            thread_id: None,
            shell_bridge_id: None,
            browser_id: None,
            verify_tls: false,
        }
    }
}

/// What a request needs is there.
pub open spec fn complete(p: ProfileView) -> bool {
    p.base_url.len() > 0 && p.org_id.len() > 0 && p.master_key.len() > 0
}

pub open spec fn prefix_of(p: ProfileView) -> Seq<char> {
    if p.deployment == "direct"@ || p.deployment == "v1"@ {
        "/v1"@
    } else {
        "/api/v1"@
    }
}

pub open spec fn origin_of(p: ProfileView) -> Result<Seq<char>, Seq<char>> {
    let base = pieces::trim_end_char(pieces::trim(p.base_url), '/');
    if base.len() == 0 {
        Err("base_url is empty — run `strobes login` first"@)
    } else if text::contains(base, "://"@) {
        Ok(base)
    } else {
        Ok("https://"@ + base)
    }
}

pub open spec fn text_result(r: Result<String, String>) -> Result<Seq<char>, Seq<char>> {
    match r {
        Ok(s) => Ok(s@),
        Err(e) => Err(e@),
    }
}

/// The origin of the sockets, of a URL taken apart: secure where the URL is.
pub open spec fn socket_origin(u: weburl::UrlView) -> Result<Seq<char>, Seq<char>> {
    match u.host {
        Some(h) => Ok(
            (if u.scheme == "https"@ {
                "wss"@
            } else {
                "ws"@
            }) + "://"@ + h + (match u.port {
                Some(p) => ":"@ + digits::dec(p as nat),
                None => Seq::empty(),
            }),
        ),
        None => Err("base_url has no host"@),
    }
}

/// The origin of the sockets of a profile.
pub open spec fn socket_base(p: ProfileView) -> Result<Seq<char>, Seq<char>> {
    match origin_of(p) {
        Ok(http) => match weburl::url_parts(http) {
            Ok(u) => socket_origin(u),
            Err(e) => Err(e),
        },
        Err(e) => Err(e),
    }
}

/// The address of a thread's socket below an origin.
pub open spec fn pulse_text(origin: Seq<char>, p: ProfileView, thread: Seq<char>) -> Seq<char> {
    origin + "/ws/"@ + p.org_id + "/pulse/"@ + thread + "/?api_key="@ + p.master_key
}

/// The host of a profile.
pub open spec fn host_of(p: ProfileView) -> Option<Seq<char>> {
    match origin_of(p) {
        Ok(http) => match weburl::url_parts(http) {
            Ok(u) => u.host,
            Err(_) => None,
        },
        Err(_) => None,
    }
}

/// The port of a profile: the one in its URL, or else the scheme's.
pub open spec fn port_of(p: ProfileView) -> u16 {
    match origin_of(p) {
        Ok(http) => match weburl::url_parts(http) {
            Ok(u) => weburl::port_to_dial(u),
            Err(_) => 80,
        },
        Err(_) => 80,
    }
}

/// The origin of the sockets, of a URL taken apart.
pub fn ws_origin(u: &UrlParts) -> (r: Result<String, String>)
    ensures
        text_result(r) == socket_origin(u@),
{
    match &u.host {
        Some(h) => {
            let mut t = if text::str_eq(&u.scheme, "https") {
                "wss".to_owned()
            } else {
                "ws".to_owned()
            };
            t.push_str("://");
            t.push_str(h);
            match u.port {
                Some(p) => {
                    let mut port = ":".to_owned();
                    let n = digits::u64_to_string(p as u64);
                    port.push_str(&n);
                    t.push_str(&port);
                },
                None => {
                    assert(t@ + Seq::<char>::empty() =~= t@);
                },
            }
            Ok(t)
        },
        None => Err("base_url has no host".to_owned()),
    }
}

impl Profile {
    /// A copy of the profile.
    pub fn duplicate(&self) -> (r: Profile)
        ensures
            r@ == self@,
    {
        Profile {
            base_url: self.base_url.clone(),
            org_id: self.org_id.clone(),
            master_key: self.master_key.clone(),
            deployment: self.deployment.clone(),
            workspace_id: text::clone_opt(&self.workspace_id),
            thread_id: text::clone_opt(&self.thread_id),
            shell_bridge_id: text::clone_opt(&self.shell_bridge_id),
            browser_id: text::clone_opt(&self.browser_id),
            verify_tls: self.verify_tls,
        }
    }

    pub fn is_complete(&self) -> (r: bool)
        ensures
            r == complete(self@),
    {
        !self.base_url.as_str().is_empty() && !self.org_id.as_str().is_empty()
            && !self.master_key.as_str().is_empty()
    }

    /// The prefix of the API's paths. Behind a proxy the API stands under
    /// `/api/v1`; only a direct deployment serves it at `/v1`.
    pub fn api_prefix(&self) -> (r: &'static str)
        ensures
            r@ == prefix_of(self@),
    {
        if text::str_eq(&self.deployment, "direct") || text::str_eq(&self.deployment, "v1") {
            "/v1"
        } else {
            "/api/v1"
        }
    }

    /// The origin of the API: a scheme is added where there is none, and
    /// slashes at the end go.
    pub fn http_base(&self) -> (r: Result<String, String>)
        ensures
            text_result(r) == origin_of(self@),
    {
        let trimmed = pieces::str_trim(&self.base_url);
        let base = pieces::str_trim_end_char(&trimmed, '/');
        if base.as_str().is_empty() {
            return Err("base_url is empty — run `strobes login` first".to_owned());
        }
        if text::str_contains(&base, "://") {
            Ok(base)
        } else {
            let mut t = "https://".to_owned();
            t.push_str(&base);
            Ok(t)
        }
    }

    /// The origin of the sockets.
    pub fn ws_base(&self) -> (r: Result<String, String>)
        ensures
            text_result(r) == socket_base(self@),
    {
        match self.http_base() {
            Ok(http) => match weburl::parse_url(&http) {
                Ok(u) => ws_origin(&u),
                Err(e) => Err(e),
            },
            Err(e) => Err(e),
        }
    }

    /// The address of a thread's socket, below an origin that is known.
    pub fn pulse_url_at(&self, origin: &str, thread_id: &str) -> (r: String)
        ensures
            r@ == pulse_text(origin@, self@, thread_id@),
    {
        let mut t = origin.to_owned();
        t.push_str("/ws/");
        t.push_str(&self.org_id);
        t.push_str("/pulse/");
        t.push_str(thread_id);
        t.push_str("/?api_key=");
        t.push_str(&self.master_key);
        t
    }

    /// The address of a thread's socket.
    pub fn pulse_ws_url(&self, thread_id: &str) -> (r: Result<String, String>)
        ensures
            text_result(r) == match socket_base(self@) {
                Ok(origin) => Ok(pulse_text(origin, self@, thread_id@)),
                Err(e) => Err(e),
            },
    {
        match self.ws_base() {
            Ok(origin) => Ok(self.pulse_url_at(&origin, thread_id)),
            Err(e) => Err(e),
        }
    }

    /// The host of the base URL.
    pub fn host(&self) -> (r: Option<String>)
        ensures
            text::opt_view(r) == host_of(self@),
    {
        match self.http_base() {
            Ok(http) => match weburl::parse_url(&http) {
                Ok(u) => u.host,
                Err(_) => None,
            },
            Err(_) => None,
        }
    }

    /// The port to dial.
    pub fn dial_port(&self) -> (r: u16)
        ensures
            r == port_of(self@),
    {
        match self.http_base() {
            Ok(http) => match weburl::parse_url(&http) {
                Ok(u) => weburl::url_port(&u),
                Err(_) => 80,
            },
            Err(_) => 80,
        }
    }

    /// The address to dial in place of what the resolver says. `given` is what
    /// the user has set, `hosts` the system's table of hosts.
    pub fn resolve_override(&self, given: &Option<String>, hosts: &str) -> (r: Option<IpAddr>)
        ensures
            r == match host_of(self@) {
                Some(h) => override_for(h, text::opt_view(*given), hosts@),
                None => None,
            },
    {
        match self.host() {
            Some(h) => resolve_host(&h, given, hosts),
            None => None,
        }
    }
}

// ---- addresses that are set by hand ---------------------------------------------------------

/// What a setting says of a host.
pub enum Setting {
    /// It speaks of another host.
    Elsewhere,
    /// The text of an address.
    Address(Seq<char>),
}

/// A setting is an address, or a host and an address with a colon between them.
pub open spec fn setting_for(raw: Seq<char>, host: Seq<char>) -> Setting {
    match pieces::last_index_of(raw, ':') {
        Some(k) => {
            let h = raw.take(k);
            if netpolicy::eq_ignore_ascii_case(h, host) {
                Setting::Address(raw.skip(k + 1))
            } else if h.len() > 0 {
                Setting::Elsewhere
            } else {
                Setting::Address(raw)
            }
        },
        None => Setting::Address(raw),
    }
}

/// The words of a line of a table of hosts, without its comment.
pub open spec fn host_words(line: Seq<char>) -> Seq<Seq<char>> {
    pieces::words(pieces::first_piece(line, '#'))
}

/// One of the words from `from` on is the host, whatever the case.
pub open spec fn names_host(w: Seq<Seq<char>>, host: Seq<char>, from: int) -> bool
    decreases w.len() - from,
{
    if from < 0 || from >= w.len() {
        false
    } else {
        netpolicy::eq_ignore_ascii_case(w[from], host) || names_host(w, host, from + 1)
    }
}

/// The address that a line gives a host.
pub open spec fn line_address(line: Seq<char>, host: Seq<char>) -> Option<IpAddr> {
    let w = host_words(line);
    if w.len() > 0 && names_host(w, host, 1) {
        ip::ip_of(w[0])
    } else {
        None
    }
}

/// The first address that the lines from `from` on give a host.
pub open spec fn address_from(lines: Seq<Seq<char>>, host: Seq<char>, from: int) -> Option<IpAddr>
    decreases lines.len() - from,
{
    if from < 0 || from >= lines.len() {
        None
    } else {
        match line_address(lines[from], host) {
            Some(a) => Some(a),
            None => address_from(lines, host, from + 1),
        }
    }
}

/// The address to dial for a host in place of what the resolver says: the
/// setting, or for a local name what the table of hosts gives.
pub open spec fn override_for(
    host: Seq<char>,
    given: Option<Seq<char>>,
    hosts: Seq<char>,
) -> Option<IpAddr> {
    let table = if text::ends_with(host, ".local"@) {
        address_from(pieces::lines(hosts), host, 0)
    } else {
        None
    };
    match given {
        Some(raw) if !pieces::is_blank(raw) => match setting_for(pieces::trim(raw), host) {
            Setting::Elsewhere => None,
            Setting::Address(a) => match ip::ip_of(pieces::trim(a)) {
                Some(x) => Some(x),
                None => table,
            },
        },
        _ => table,
    }
}

/// The first address that a table of hosts gives a host.
pub fn hosts_file_lookup(hosts: &str, host: &str) -> (r: Option<IpAddr>)
    ensures
        r == address_from(pieces::lines(hosts@), host@, 0),
{
    let lines = pieces::str_lines(hosts);
    let ghost all = text::views(lines@);
    let n: usize = lines.len();
    let mut i: usize = 0;
    while i < n
        invariant
            i <= n,
            n == lines@.len(),
            all == text::views(lines@),
            all == pieces::lines(hosts@),
            address_from(all, host@, 0) == address_from(all, host@, i as int),
        decreases n - i,
    {
        let before = pieces::str_first_piece(&lines[i], '#');
        let words = pieces::str_words(&before);
        let ghost w = text::views(words@);
        assert(all[i as int] == lines@[i as int]@);
        assert(w == host_words(all[i as int]));
        let m: usize = words.len();
        if m > 0 {
            let mut named = false;
            let mut k: usize = 1;
            while k < m && !named
                invariant
                    1 <= k <= m,
                    m == words@.len(),
                    w == text::views(words@),
                    names_host(w, host@, 1) == (named || names_host(w, host@, k as int)),
                decreases m - k,
            {
                assert(w[k as int] == words@[k as int]@);
                if netpolicy::str_eq_ignore_ascii_case(&words[k], host) {
                    named = true;
                }
                k += 1;
            }
            if named {
                assert(w[0] == words@[0]@);
                if let Some(a) = IpAddr::parse(&words[0]) {
                    return Some(a);
                }
            }
        }
        i += 1;
    }
    None
}

/// The address to dial for a host in place of what the resolver says.
pub fn resolve_host(host: &str, given: &Option<String>, hosts: &str) -> (r: Option<IpAddr>)
    ensures
        r == override_for(host@, text::opt_view(*given), hosts@),
{
    if let Some(raw) = given {
        let raw = pieces::str_trim(raw);
        if !raw.as_str().is_empty() {
            let v = text::chars_of(&raw);
            let n: usize = v.len();
            let address = match pieces::chars_last_index(&v, ':') {
                Some(k) => {
                    let h = pieces::str_take(&raw, k);
                    if netpolicy::str_eq_ignore_ascii_case(&h, host) {
                        pieces::str_skip(&raw, k + 1)
                    } else if !h.as_str().is_empty() {
                        return None;
                    } else {
                        raw
                    }
                },
                None => raw,
            };
            let address = pieces::str_trim(&address);
            if let Some(a) = IpAddr::parse(&address) {
                return Some(a);
            }
        }
    }
    if text::str_ends_with(host, ".local") {
        hosts_file_lookup(hosts, host)
    } else {
        None
    }
}

// ---- all tenants --------------------------------------------------------------------------------

/// The tenants, which of them is the default, and the folders that are bound
/// to workspaces.
#[derive(Debug, Clone)]
pub struct Config {
    pub current_profile: String,
    pub profiles: Table<Profile>,
    /// Local folders by workspace.
    pub workspace_dirs: Table<String>,
}

/// The names of both tables stand in order.
pub open spec fn well_formed(c: Config) -> bool {
    table::in_names_order(c.profiles.entries@) && table::in_names_order(c.workspace_dirs.entries@)
}

/// What the environment says in place of a profile.
pub struct Overrides {
    pub base_url: Option<String>,
    pub org_id: Option<String>,
    pub master_key: Option<String>,
    pub deployment: Option<String>,
}

/// A profile with what the environment says in place of it.
pub open spec fn overridden(p: ProfileView, o: Overrides) -> ProfileView {
    ProfileView {
        base_url: text::text_or(text::opt_view(o.base_url), p.base_url),
        org_id: text::text_or(text::opt_view(o.org_id), p.org_id),
        master_key: text::text_or(text::opt_view(o.master_key), p.master_key),
        deployment: text::text_or(text::opt_view(o.deployment), p.deployment),
        ..p
    }
}

/// The profile of a name; one that says nothing where there is none.
pub open spec fn profile_named(c: Config, name: Seq<char>) -> ProfileView {
    if c.profiles@.dom().contains(name) {
        c.profiles@[name]@
    } else {
        empty_profile()
    }
}

/// `after` is `before` with a tenant's thread, and its workspace where there is
/// one; all else stays.
pub open spec fn remembered(
    before: Config,
    after: Config,
    tenant: Seq<char>,
    thread: Seq<char>,
    workspace: Option<Seq<char>>,
) -> bool {
    let p = profile_named(before, tenant);
    &&& after.current_profile == before.current_profile
    &&& after.workspace_dirs == before.workspace_dirs
    &&& after.profiles@ == before.profiles@.insert(tenant, after.profiles@[tenant])
    &&& after.profiles@[tenant]@ == (ProfileView {
        thread_id: Some(thread),
        workspace_id: if workspace is Some {
            workspace
        } else {
            p.workspace_id
        },
        ..p
    })
}

/// The thread that was kept for a tenant is the one that its profile has
/// afterwards, whatever the environment says; its credentials, and the profiles
/// of the other tenants, stay.
pub proof fn kept_threads_come_back(
    before: Config,
    after: Config,
    tenant: Seq<char>,
    thread: Seq<char>,
    workspace: Option<Seq<char>>,
    env: Overrides,
    other: Seq<char>,
)
    requires
        remembered(before, after, tenant, thread, workspace),
    ensures
        overridden(profile_named(after, tenant), env).thread_id == Some(thread),
        workspace is Some ==> overridden(profile_named(after, tenant), env).workspace_id
            == workspace,
        complete(profile_named(after, tenant)) == complete(profile_named(before, tenant)),
        other != tenant ==> profile_named(after, other) == profile_named(before, other),
{
}

impl Config {
    /// No tenants at all.
    pub fn new() -> (r: Config)
        ensures
            well_formed(r),
            r.current_profile@ == Seq::<char>::empty(),
            r.profiles@ == Map::<Seq<char>, Profile>::empty(),
            r.workspace_dirs@ == Map::<Seq<char>, String>::empty(),
    {
        Config {
            current_profile: nothing(),
            profiles: Table::new(),
            workspace_dirs: Table::new(),
        }
    }

    /// Makes what was read usable: there is always a tenant and a default.
    pub fn fill(&mut self)
        requires
            well_formed(*old(self)),
        ensures
            well_formed(*final(self)),
            final(self).workspace_dirs == old(self).workspace_dirs,
            final(self).current_profile@ == if old(self).current_profile@.len() == 0 {
                "default"@
            } else {
                old(self).current_profile@
            },
            old(self).profiles.entries@.len() > 0 ==> final(self).profiles == old(self).profiles,
            old(self).profiles.entries@.len() == 0 ==> ({
                &&& final(self).profiles@.dom() =~= set!["default"@]
                &&& final(self).profiles@["default"@]@ == empty_profile()
            }),
    {
        if self.profiles.entries.len() == 0 {
            let p = Profile::default();
            assert(self.profiles@ =~= Map::<Seq<char>, Profile>::empty());
            self.profiles.insert("default", p);
        }
        if self.current_profile.as_str().is_empty() {
            self.current_profile = "default".to_owned();
        }
    }

    /// The profile of the default tenant, with what the environment says in
    /// place of it.
    pub fn current(&self, env: &Overrides) -> (r: Profile)
        requires
            well_formed(*self),
        ensures
            r@ == overridden(profile_named(*self, self.current_profile@), *env),
    {
        self.profile_for(&self.current_profile, env)
    }

    /// The profile of a tenant, with what the environment says in place of it.
    pub fn profile_for(&self, name: &str, env: &Overrides) -> (r: Profile)
        requires
            well_formed(*self),
        ensures
            r@ == overridden(profile_named(*self, name@), *env),
    {
        let p = match self.profiles.get(name) {
            Some(p) => p.duplicate(),
            None => Profile::default(),
        };
        Profile {
            base_url: text::opt_or(&env.base_url, &p.base_url),
            org_id: text::opt_or(&env.org_id, &p.org_id),
            master_key: text::opt_or(&env.master_key, &p.master_key),
            deployment: text::opt_or(&env.deployment, &p.deployment),
            workspace_id: p.workspace_id,
            thread_id: p.thread_id,
            shell_bridge_id: p.shell_bridge_id,
            browser_id: p.browser_id,
            verify_tls: p.verify_tls,
        }
    }

    /// The names of the tenants whose credentials are complete, in order.
    pub fn tenants(&self) -> (r: Vec<String>)
        requires
            well_formed(*self),
        ensures
            order::ascending(text::views(r@)),
            forall|x: Seq<char>|
                #![trigger text::views(r@).contains(x)]
                text::views(r@).contains(x) <==> self.profiles@.dom().contains(x) && complete(
                    self.profiles@[x]@,
                ),
    {
        let ghost e = self.profiles.entries@;
        let n: usize = self.profiles.entries.len();
        let mut out: Vec<String> = Vec::new();
        let mut i: usize = 0;
        while i < n
            invariant
                i <= n,
                n == e.len(),
                e == self.profiles.entries@,
                table::in_names_order(e),
                text::views(out@) == complete_names(e, i as int),
            decreases n - i,
        {
            if self.profiles.entries[i].1.is_complete() {
                out.push(self.profiles.entries[i].0.clone());
            }
            i += 1;
        }
        proof {
            complete_names_are_right(*self, n as int);
            assert forall|x: Seq<char>|
                #![trigger text::views(out@).contains(x)]
                text::views(out@).contains(x) <==> self.profiles@.dom().contains(x) && complete(
                    self.profiles@[x]@,
                ) by {
                if self.profiles@.dom().contains(x) {
                    let k = choose|k: int| table::is_at(e, x, k);
                    assert(table::is_at(e, x, k));
                }
            }
        }
        out
    }

    /// The default tenant has all its credentials.
    pub fn has_default(&self) -> (r: bool)
        requires
            well_formed(*self),
        ensures
            r == (self.profiles@.dom().contains(self.current_profile@) && complete(
                self.profiles@[self.current_profile@]@,
            )),
    {
        match self.profiles.get(&self.current_profile) {
            Some(p) => p.is_complete(),
            None => false,
        }
    }

    /// The profile of a tenant, to be changed. A new name gets a profile that
    /// says nothing.
    pub fn profile_mut(&mut self, name: &str) -> (r: &mut Profile)
        requires
            well_formed(*old(self)),
        ensures
            r@ == profile_named(*old(self), name@),
            well_formed(*final(self)),
            final(self).current_profile == old(self).current_profile,
            final(self).workspace_dirs == old(self).workspace_dirs,
            final(self).profiles@ == old(self).profiles@.insert(name@, *final(r)),
    {
        self.profiles.get_mut_or(name, Profile::default())
    }

    /// Keeps a tenant's thread, and its workspace where there is one.
    pub fn remember(&mut self, tenant: &str, thread: &str, workspace: &Option<String>)
        requires
            well_formed(*old(self)),
        ensures
            well_formed(*final(self)),
            remembered(*old(self), *final(self), tenant@, thread@, text::opt_view(*workspace)),
    {
        let mut p = match self.profiles.get(tenant) {
            Some(p) => p.duplicate(),
            None => Profile::default(),
        };
        p.thread_id = Some(thread.to_owned());
        if workspace.is_some() {
            p.workspace_id = text::clone_opt(workspace);
        }
        self.profiles.insert(tenant, p);
    }
}

/// The complete names among the first `n` entries.
spec fn complete_names(e: Seq<(String, Profile)>, n: int) -> Seq<Seq<char>>
    decreases n,
{
    if n <= 0 {
        Seq::empty()
    } else if complete(e[n - 1].1@) {
        complete_names(e, n - 1).push(e[n - 1].0@)
    } else {
        complete_names(e, n - 1)
    }
}

/// One of the first `n` entries has that name.
spec fn named_before(e: Seq<(String, Profile)>, name: Seq<char>, n: int) -> bool {
    exists|k: int| 0 <= k < n && table::is_at(e, name, k)
}

proof fn complete_names_are_right(c: Config, n: int)
    requires
        well_formed(c),
        0 <= n <= c.profiles.entries@.len(),
    ensures
        order::ascending(complete_names(c.profiles.entries@, n)),
        forall|x: Seq<char>|
            complete_names(c.profiles.entries@, n).contains(x) ==> c.profiles@.dom().contains(x)
                && complete(c.profiles@[x]@),
        forall|x: Seq<char>, k: int|
            k < n && #[trigger] table::is_at(c.profiles.entries@, x, k) && complete(
                c.profiles@[x]@,
            ) ==> complete_names(c.profiles.entries@, n).contains(x),
        forall|j: int|
            0 <= j < complete_names(c.profiles.entries@, n).len() ==> named_before(
                c.profiles.entries@,
                #[trigger] complete_names(c.profiles.entries@, n)[j],
                n,
            ),
    decreases n,
{
    let e = c.profiles.entries@;
    if n > 0 {
        complete_names_are_right(c, n - 1);
        let before = complete_names(e, n - 1);
        let now = complete_names(e, n);
        let name = e[n - 1].0@;
        table::entry_is_held(e, n - 1);
        assert forall|x: Seq<char>| now.contains(x) implies c.profiles@.dom().contains(x)
            && complete(c.profiles@[x]@) by {
            let j = choose|j: int| 0 <= j < now.len() && now[j] == x;
            if j < before.len() {
                assert(before[j] == x);
                assert(before.contains(x));
            }
        }
        assert forall|x: Seq<char>, k: int|
            k < n && #[trigger] table::is_at(e, x, k) && complete(
                c.profiles@[x]@,
            ) implies now.contains(x) by {
            if k == n - 1 {
                assert(now[now.len() - 1] == x);
            } else {
                assert(before.contains(x));
                let j = choose|j: int| 0 <= j < before.len() && before[j] == x;
                assert(now[j] == x);
            }
        }
        assert forall|j: int| 0 <= j < now.len() implies named_before(
            e,
            #[trigger] now[j],
            n,
        ) by {
            if j < before.len() {
                assert(now[j] == before[j]);
                assert(named_before(e, before[j], n - 1));
                let k = choose|k: int| 0 <= k < n - 1 && table::is_at(e, before[j], k);
                assert(table::is_at(e, now[j], k));
            } else {
                assert(table::is_at(e, now[j], n - 1));
            }
        }
        assert(order::ascending(now)) by {
            assert forall|a: int, b: int| 0 <= a < b < now.len() implies order::precedes(
                #[trigger] now[a],
                #[trigger] now[b],
            ) by {
                if b < before.len() {
                    assert(now[a] == before[a] && now[b] == before[b]);
                } else {
                    assert(now[a] == before[a]);
                    assert(named_before(e, before[a], n - 1));
                    let k = choose|k: int| 0 <= k < n - 1 && table::is_at(e, before[a], k);
                    assert(order::precedes(e[k].0@, e[n - 1].0@));
                }
            }
        }
    }
}

// ---- secrets --------------------------------------------------------------------------------------

/// A secret as it may be shown.
pub open spec fn redacted(s: Seq<char>) -> Seq<char> {
    let n = text::byte_len(s);
    if s.len() == 0 {
        "(unset)"@
    } else if n <= 8 {
        pieces::repeat("*"@, n)
    } else {
        editor::head_bytes(s, 4) + "…"@ + editor::tail_bytes(s, (n - 4) as nat)
    }
}

/// A secret as it may be shown: its first and last four bytes, and none of them
/// where it is short.
pub fn redact(secret: &str) -> (r: String)
    requires
        text::byte_len(secret@) > 8 ==> editor::on_boundary(secret@, 4) && editor::on_boundary(
            secret@,
            (text::byte_len(secret@) - 4) as nat,
        ),
    ensures
        r@ == redacted(secret@),
{
    if secret.is_empty() {
        return "(unset)".to_owned();
    }
    let n = text::str_byte_len(secret);
    if n <= 8 {
        return pieces::str_repeat("*", n);
    }
    let mut t = editor::str_head_bytes(secret, 4);
    t.push_str("…");
    let end = editor::str_tail_bytes(secret, n - 4);
    t.push_str(&end);
    t
}

} // verus!
