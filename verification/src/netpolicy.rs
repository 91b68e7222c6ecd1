//! The network-egress scope: which hosts a confined command may reach.
//!
//! Cloud-metadata and link-local destinations are denied before the configured
//! rules are consulted, and no rule can allow them. After that a deny rule wins
//! over an allow rule, and the default decides for a host that no rule names.

use vstd::prelude::*;
use crate::ip;
use crate::ip::IpAddr;
use crate::pieces;
use crate::text;

verus! {

broadcast use {vstd::seq::group_seq_axioms, vstd::string::group_string_axioms};

#[derive(Clone, Copy, Debug, PartialEq, Eq, Structural)]
pub enum Action {
    Allow,
    Deny,
}

/// One rule of an allow or deny list.
pub enum HostRule {
    /// A host by its name.
    Exact(String),
    /// `*.example.com`: any subdomain, not the bare domain itself.
    WildcardSuffix(String),
    /// An IP address.
    Ip(IpAddr),
}

pub struct NetworkPolicy {
    pub allow: Vec<HostRule>,
    pub deny: Vec<HostRule>,
    pub default: Action,
}

#[derive(Debug, Clone, PartialEq, Eq)]
pub enum Decision {
    Allow,
    /// Refused, for a reason that names the rule.
    Deny(String),
}

// ---- model -------------------------------------------------------------------

/// A rule by the text or the address that it holds.
pub enum RuleView {
    Exact(Seq<char>),
    WildcardSuffix(Seq<char>),
    Ip(IpAddr),
}

/// A decision by the text of its reason.
pub enum DecisionView {
    Allow,
    Deny(Seq<char>),
}

impl View for HostRule {
    type V = RuleView;

    open spec fn view(&self) -> RuleView {
        match self {
            HostRule::Exact(h) => RuleView::Exact(h@),
            HostRule::WildcardSuffix(h) => RuleView::WildcardSuffix(h@),
            HostRule::Ip(a) => RuleView::Ip(*a),
        }
    }
}

impl View for Decision {
    type V = DecisionView;

    open spec fn view(&self) -> DecisionView {
        match self {
            Decision::Allow => DecisionView::Allow,
            Decision::Deny(r) => DecisionView::Deny(r@),
        }
    }
}

/// The rules of a list.
pub open spec fn rules(v: Seq<HostRule>) -> Seq<RuleView> {
    v.map_values(|r: HostRule| r@)
}

/// The rule that a flag value stands for.
pub open spec fn rule_of(raw: Seq<char>) -> RuleView {
    let t = pieces::trim(raw);
    match ip::ip_of(t) {
        Some(a) => RuleView::Ip(a),
        None => match text::strip_prefix(t, "*."@) {
            Some(suffix) => RuleView::WildcardSuffix(text::lowercase(suffix)),
            None => RuleView::Exact(text::lowercase(t)),
        },
    }
}

/// Two texts that differ at most in the case of ASCII letters.
pub open spec fn eq_ignore_ascii_case(a: Seq<char>, b: Seq<char>) -> bool {
    a.len() == b.len() && forall|i: int|
        0 <= i < a.len() ==> text::ascii_lower(#[trigger] a[i]) == text::ascii_lower(b[i])
}

/// Whether a rule names a host, or the address that it resolved to.
pub open spec fn rule_matches(r: RuleView, host: Seq<char>, resolved: Option<IpAddr>) -> bool {
    match r {
        RuleView::Exact(h) => eq_ignore_ascii_case(host, h),
        RuleView::WildcardSuffix(suffix) => text::ends_with(text::lowercase(host), seq!['.'] + suffix),
        RuleView::Ip(a) => resolved == Some(a),
    }
}

/// How a rule is named in a reason.
pub open spec fn rule_text(r: RuleView) -> Seq<char> {
    match r {
        RuleView::Exact(h) => h,
        RuleView::WildcardSuffix(s) => "*."@ + s,
        RuleView::Ip(a) => ip::ip_text(a),
    }
}

/// The reason for which a destination is denied whatever the rules say.
pub open spec fn always_denied_reason(host: Seq<char>, resolved: Option<IpAddr>) -> Option<Seq<char>> {
    if text::lowercase(host) == "metadata.google.internal"@ || text::lowercase(host) == "metadata"@ {
        Some("cloud metadata hostname (always denied)"@)
    } else if ip::ip_of(host) is Some && ip::is_metadata(ip::ip_of(host)->0) {
        Some("link-local / cloud-metadata address (always denied)"@)
    } else if resolved is Some && ip::is_metadata(resolved->0) {
        Some("resolves to a link-local / cloud-metadata address (always denied)"@)
    } else {
        None
    }
}

/// The first rule of a list that matches.
pub open spec fn first_match(v: Seq<RuleView>, host: Seq<char>, resolved: Option<IpAddr>) -> Option<
    RuleView,
>
    decreases v.len(),
{
    if v.len() == 0 {
        None
    } else if rule_matches(v[0], host, resolved) {
        Some(v[0])
    } else {
        first_match(v.skip(1), host, resolved)
    }
}

/// Some rule of the list matches.
pub open spec fn any_match(v: Seq<RuleView>, host: Seq<char>, resolved: Option<IpAddr>) -> bool {
    exists|i: int| 0 <= i < v.len() && rule_matches(#[trigger] v[i], host, resolved)
}

/// What a policy decides on a host.
pub open spec fn decision(
    allow: Seq<RuleView>,
    deny: Seq<RuleView>,
    default: Action,
    host: Seq<char>,
    resolved: Option<IpAddr>,
) -> DecisionView {
    match always_denied_reason(host, resolved) {
        Some(reason) => DecisionView::Deny(reason),
        None => match first_match(deny, host, resolved) {
            Some(r) => DecisionView::Deny("denied by rule "@ + rule_text(r)),
            None => if any_match(allow, host, resolved) || default == Action::Allow {
                DecisionView::Allow
            } else {
                DecisionView::Deny("default-deny: not in --net-allow"@)
            },
        },
    }
}

// ---- rules -------------------------------------------------------------------

/// Whether two texts differ at most in the case of ASCII letters.
pub fn str_eq_ignore_ascii_case(a: &str, b: &str) -> (r: bool)
    ensures
        r == eq_ignore_ascii_case(a@, b@),
{
    let v = text::chars_of(a);
    let w = text::chars_of(b);
    if v.len() != w.len() {
        return false;
    }
    let mut i: usize = 0;
    while i < v.len()
        invariant
            i <= v@.len(),
            v@.len() == w@.len(),
            v@ == a@,
            w@ == b@,
            forall|j: int| 0 <= j < i ==> text::ascii_lower(#[trigger] v@[j]) == text::ascii_lower(w@[j]),
        decreases v@.len() - i,
    {
        if text::char_ascii_lower(v[i]) != text::char_ascii_lower(w[i]) {
            assert(text::ascii_lower(a@[i as int]) != text::ascii_lower(b@[i as int]));
            return false;
        }
        i += 1;
    }
    true
}

impl HostRule {
    /// The rule that a flag value stands for: an IP literal, a `*.` wildcard,
    /// or a host name.
    pub fn parse(raw: &str) -> (r: HostRule)
        ensures
            r@ == rule_of(raw@),
    {
        let t = pieces::str_trim(raw);
        match IpAddr::parse(&t) {
            Some(a) => HostRule::Ip(a),
            None => match text::str_strip_prefix(&t, "*.") {
                Some(suffix) => HostRule::WildcardSuffix(text::to_lowercase(&suffix)),
                None => HostRule::Exact(text::to_lowercase(&t)),
            },
        }
    }

    /// Whether the rule names `host` or the address that it resolved to.
    pub fn matches(&self, host: &str, resolved: Option<IpAddr>) -> (r: bool)
        ensures
            r == rule_matches(self@, host@, resolved),
    {
        match self {
            HostRule::Exact(h) => str_eq_ignore_ascii_case(host, h),
            HostRule::WildcardSuffix(suffix) => {
                let mut dotted = String::new();
                dotted.push('.');
                assert(dotted@ =~= seq!['.']);
                dotted.push_str(suffix);
                let lower = text::to_lowercase(host);
                text::str_ends_with(&lower, &dotted)
            },
            HostRule::Ip(a) => match resolved {
                Some(b) => b == *a,
                None => false,
            },
        }
    }

    /// How the rule is named in a reason.
    pub fn to_text(&self) -> (r: String)
        ensures
            r@ == rule_text(self@),
    {
        match self {
            HostRule::Exact(h) => h.clone(),
            HostRule::WildcardSuffix(s) => {
                let mut out = "*.".to_owned();
                out.push_str(s);
                out
            },
            HostRule::Ip(a) => a.to_text(),
        }
    }
}

/// The reason for which a destination is denied whatever the rules say.
pub fn always_denied(host: &str, resolved: Option<IpAddr>) -> (r: Option<String>)
    ensures
        text::opt_view(r) == always_denied_reason(host@, resolved),
{
    let lower = text::to_lowercase(host);
    if text::str_eq(&lower, "metadata.google.internal") || text::str_eq(&lower, "metadata") {
        return Some("cloud metadata hostname (always denied)".to_owned());
    }
    if let Some(literal) = IpAddr::parse(host) {
        if ip::ip_is_metadata(&literal) {
            return Some("link-local / cloud-metadata address (always denied)".to_owned());
        }
    }
    if let Some(a) = resolved {
        if ip::ip_is_metadata(&a) {
            return Some(
                "resolves to a link-local / cloud-metadata address (always denied)".to_owned(),
            );
        }
    }
    None
}

fn parse_rules(flags: &[String]) -> (r: Vec<HostRule>)
    ensures
        rules(r@) == text::views(flags@).map_values(|s: Seq<char>| rule_of(s)),
{
    let mut out: Vec<HostRule> = Vec::new();
    let mut i: usize = 0;
    let ghost want = text::views(flags@).map_values(|s: Seq<char>| rule_of(s));
    assert(rules(out@) =~= want.take(0));
    while i < flags.len()
        invariant
            i <= flags@.len(),
            want == text::views(flags@).map_values(|s: Seq<char>| rule_of(s)),
            rules(out@) == want.take(i as int),
        decreases flags@.len() - i,
    {
        let rule = HostRule::parse(&flags[i]);
        let ghost before = out@;
        out.push(rule);
        proof {
            assert(rules(before.push(rule)) =~= rules(before).push(rule@));
            assert(want.take(i as int + 1) =~= want.take(i as int).push(want[i as int]));
        }
        i += 1;
    }
    assert(want.take(want.len() as int) =~= want);
    out
}

impl NetworkPolicy {
    /// No rules, everything allowed that is not always denied.
    pub fn open() -> (r: Self)
        ensures
            rules(r.allow@) == Seq::<RuleView>::empty(),
            rules(r.deny@) == Seq::<RuleView>::empty(),
            r.default == Action::Allow,
    {
        let p = NetworkPolicy { allow: Vec::new(), deny: Vec::new(), default: Action::Allow };
        assert(rules(p.allow@) =~= Seq::empty());
        assert(rules(p.deny@) =~= Seq::empty());
        p
    }

    /// The policy that the flag values stand for.
    pub fn from_flags(allow: &[String], deny: &[String], default: Action) -> (r: Self)
        ensures
            rules(r.allow@) == text::views(allow@).map_values(|s: Seq<char>| rule_of(s)),
            rules(r.deny@) == text::views(deny@).map_values(|s: Seq<char>| rule_of(s)),
            r.default == default,
    {
        NetworkPolicy { allow: parse_rules(allow), deny: parse_rules(deny), default }
    }

    /// Whether `host` may be reached; `resolved` is the address that it was
    /// looked up as.
    pub fn decide(&self, host: &str, resolved: Option<IpAddr>) -> (r: Decision)
        ensures
            r@ == decision(rules(self.allow@), rules(self.deny@), self.default, host@, resolved),
    {
        if let Some(reason) = always_denied(host, resolved) {
            return Decision::Deny(reason);
        }
        let ghost deny = rules(self.deny@);
        let mut i: usize = 0;
        assert(deny.skip(0) =~= deny);
        while i < self.deny.len()
            invariant
                i <= self.deny@.len(),
                deny == rules(self.deny@),
                always_denied_reason(host@, resolved) is None,
                first_match(deny, host@, resolved) == first_match(deny.skip(i as int), host@, resolved),
            decreases self.deny@.len() - i,
        {
            let rule = &self.deny[i];
            assert(deny.skip(i as int)[0] == rule@);
            assert(deny.skip(i as int).skip(1) =~= deny.skip(i as int + 1));
            if rule.matches(host, resolved) {
                let mut reason = "denied by rule ".to_owned();
                let name = rule.to_text();
                reason.push_str(&name);
                return Decision::Deny(reason);
            }
            i += 1;
        }
        let ghost allow = rules(self.allow@);
        let mut j: usize = 0;
        while j < self.allow.len()
            invariant
                j <= self.allow@.len(),
                deny == rules(self.deny@),
                allow == rules(self.allow@),
                always_denied_reason(host@, resolved) is None,
                first_match(deny, host@, resolved) is None,
                forall|k: int| 0 <= k < j ==> !rule_matches(#[trigger] allow[k], host@, resolved),
            decreases self.allow@.len() - j,
        {
            if self.allow[j].matches(host, resolved) {
                assert(rule_matches(allow[j as int], host@, resolved));
                return Decision::Allow;
            }
            j += 1;
        }
        match self.default {
            Action::Allow => Decision::Allow,
            Action::Deny => Decision::Deny("default-deny: not in --net-allow".to_owned()),
        }
    }
}

// ---- laws --------------------------------------------------------------------

/// A link-local or metadata destination is denied whatever the rules and the
/// default say: by its host name, by its IP literal, and by the address that
/// an unrelated name resolves to.
pub proof fn metadata_is_always_denied(
    allow: Seq<RuleView>,
    deny: Seq<RuleView>,
    default: Action,
    host: Seq<char>,
    resolved: Option<IpAddr>,
)
    requires
        text::lowercase(host) == "metadata.google.internal"@ || text::lowercase(host) == "metadata"@ || (
        ip::ip_of(host) matches Some(a) && ip::is_metadata(a)) || (resolved matches Some(b)
            && ip::is_metadata(b)),
    ensures
        decision(allow, deny, default, host, resolved) is Deny,
{
}

/// A rule that matches stands at some position of the list, and the first one
/// is reported.
pub proof fn first_match_is_first(v: Seq<RuleView>, host: Seq<char>, resolved: Option<IpAddr>)
    ensures
        any_match(v, host, resolved) <==> first_match(v, host, resolved) is Some,
        first_match(v, host, resolved) matches Some(r) ==> rule_matches(r, host, resolved),
    decreases v.len(),
{
    if v.len() > 0 && !rule_matches(v[0], host, resolved) {
        first_match_is_first(v.skip(1), host, resolved);
        if any_match(v, host, resolved) {
            let i = choose|i: int| 0 <= i < v.len() && rule_matches(#[trigger] v[i], host, resolved);
            assert(v.skip(1)[i - 1] == v[i]);
            assert(any_match(v.skip(1), host, resolved));
        }
        if any_match(v.skip(1), host, resolved) {
            let i = choose|i: int|
                0 <= i < v.skip(1).len() && rule_matches(#[trigger] v.skip(1)[i], host, resolved);
            assert(v[i + 1] == v.skip(1)[i]);
        }
    }
}

/// A deny rule wins over every allow rule and over the default.
pub proof fn deny_rule_wins(
    allow: Seq<RuleView>,
    deny: Seq<RuleView>,
    default: Action,
    host: Seq<char>,
    resolved: Option<IpAddr>,
)
    requires
        any_match(deny, host, resolved),
    ensures
        decision(allow, deny, default, host, resolved) is Deny,
{
    first_match_is_first(deny, host, resolved);
}

/// The default decides exactly for the hosts that no rule names and that are
/// not always denied.
pub proof fn default_decides_unlisted_hosts(
    allow: Seq<RuleView>,
    deny: Seq<RuleView>,
    default: Action,
    host: Seq<char>,
    resolved: Option<IpAddr>,
)
    requires
        always_denied_reason(host, resolved) is None,
        !any_match(deny, host, resolved),
    ensures
        any_match(allow, host, resolved) ==> decision(allow, deny, default, host, resolved) is Allow,
        !any_match(allow, host, resolved) ==> (decision(allow, deny, default, host, resolved) is Allow
            <==> default == Action::Allow),
{
    first_match_is_first(deny, host, resolved);
}

/// The open policy allows every destination that is not always denied.
pub proof fn open_policy_allows_the_rest(host: Seq<char>, resolved: Option<IpAddr>)
    ensures
        decision(Seq::empty(), Seq::empty(), Action::Allow, host, resolved) is Allow
            <==> always_denied_reason(host, resolved) is None,
{
}

/// `*.suffix` never matches the bare domain `suffix` itself.
pub proof fn wildcard_excludes_bare_domain(suffix: Seq<char>, host: Seq<char>, resolved: Option<IpAddr>)
    requires
        text::lowercase(host) == suffix,
    ensures
        !rule_matches(RuleView::WildcardSuffix(suffix), host, resolved),
{
}

} // verus!
