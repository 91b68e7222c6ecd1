//! What a command may reach, and what the proxy makes of its requests.

use strobes::egress_proxy;
use strobes::egress_proxy::{parse_request, HeadState, Reply};
use strobes::ip::IpAddr;
use strobes::netpolicy::{Action, Decision, HostRule, NetworkPolicy};

#[test]
fn open_policy_allows_everything_except_metadata() {
    let p = NetworkPolicy::open();
    assert_eq!(p.decide("example.com", None), Decision::Allow);
    assert!(matches!(p.decide("169.254.169.254", None), Decision::Deny(_)));
    assert!(matches!(p.decide("metadata.google.internal", None), Decision::Deny(_)));
}

#[test]
fn metadata_denied_even_when_explicitly_allowed() {
    let p = NetworkPolicy::from_flags(&["169.254.169.254".into()], &[], Action::Deny);
    assert!(matches!(p.decide("169.254.169.254", None), Decision::Deny(_)));
}

#[test]
fn deny_rule_wins_over_allow_rule() {
    let p = NetworkPolicy::from_flags(
        &["*.example.com".into()],
        &["evil.example.com".into()],
        Action::Deny,
    );
    assert!(matches!(p.decide("evil.example.com", None), Decision::Deny(_)));
    assert_eq!(p.decide("good.example.com", None), Decision::Allow);
}

#[test]
fn default_deny_blocks_unlisted_hosts() {
    let p = NetworkPolicy::from_flags(&["allowed.com".into()], &[], Action::Deny);
    assert_eq!(p.decide("allowed.com", None), Decision::Allow);
    assert!(matches!(p.decide("other.com", None), Decision::Deny(_)));
}

#[test]
fn wildcard_does_not_match_bare_domain() {
    let rule = HostRule::parse("*.example.com");
    assert!(!rule.matches("example.com", None));
    assert!(rule.matches("api.example.com", None));
}

#[test]
fn link_local_ip_literal_always_denied() {
    let p = NetworkPolicy::open();
    assert!(matches!(p.decide("169.254.1.1", None), Decision::Deny(_)));
}

#[test]
fn resolved_metadata_ip_denied_even_for_an_unrelated_hostname() {
    let p = NetworkPolicy::open();
    let ip = IpAddr::parse("169.254.169.254").unwrap();
    assert!(matches!(p.decide("sneaky.example.com", Some(ip)), Decision::Deny(_)));
}

#[test]
fn denies_out_of_scope_and_allows_in_scope() {
    let p = NetworkPolicy::from_flags(&["allowed.example".into()], &[], Action::Deny);
    assert!(matches!(p.decide("blocked.example", None), Decision::Deny(_)));
    assert_eq!(p.decide("allowed.example", None), Decision::Allow);
}

#[test]
fn parses_connect_target() {
    let req = parse_request(b"CONNECT example.com:443 HTTP/1.1\r\nHost: example.com:443\r\n\r\n");
    let req = match req {
        Ok(r) => r,
        Err(e) => panic!("{e}"),
    };
    assert!(req.is_connect);
    assert_eq!(req.host, "example.com");
    assert_eq!(req.port, 443);
}

#[test]
fn parses_and_rewrites_plain_get() {
    let req =
        parse_request(b"GET http://example.com/a/b?x=1 HTTP/1.1\r\nHost: example.com\r\n\r\n");
    let req = match req {
        Ok(r) => r,
        Err(e) => panic!("{e}"),
    };
    assert!(!req.is_connect);
    assert_eq!(req.host, "example.com");
    assert_eq!(req.port, 80);
    let rewritten = String::from_utf8(req.rewritten_head.unwrap()).unwrap();
    assert!(rewritten.starts_with("GET /a/b?x=1 HTTP/1.1\r\n"));
    assert!(rewritten.contains("Host: example.com"));
}

#[test]
fn a_target_that_is_no_url_is_an_error() {
    assert!(parse_request(b"GET not-a-url HTTP/1.1\r\n\r\n").is_err());
    assert!(parse_request(b"").is_err());
}

#[test]
fn heads_end_with_a_blank_line() {
    let done = b"GET / HTTP/1.1\r\n\r\n".to_vec();
    let open = b"GET / HTTP/1.1\r\n".to_vec();
    assert!(matches!(egress_proxy::head_state(&done), HeadState::Complete));
    assert!(matches!(egress_proxy::head_state(&open), HeadState::NeedMore));
    let long = vec![b'a'; egress_proxy::MAX_HEAD + 1];
    assert!(matches!(egress_proxy::head_state(&long), HeadState::TooLarge));
}

#[test]
fn hosts_and_ports_are_told_apart() {
    assert_eq!(egress_proxy::split_host_port("a.example:8080", 443), ("a.example".to_string(), 8080));
    assert_eq!(egress_proxy::split_host_port("a.example", 443), ("a.example".to_string(), 443));
}

#[test]
fn refused_requests_are_answered_with_the_reason() {
    let p = NetworkPolicy::from_flags(&[], &[], Action::Deny);
    let q = match parse_request(b"CONNECT other.com:443 HTTP/1.1\r\n\r\n") {
        Ok(q) => q,
        Err(e) => panic!("{e}"),
    };
    match egress_proxy::reply(&q, &p.decide(&q.host, None)) {
        Reply::Refuse(b) => {
            let s = String::from_utf8(b).unwrap();
            assert!(s.starts_with("HTTP/1.1 403"), "{s}");
        }
        _ => panic!("a refused host was connected"),
    }
    match egress_proxy::reply(&q, &Decision::Allow) {
        Reply::Tunnel(b) => {
            assert_eq!(b, b"HTTP/1.1 200 Connection Established\r\n\r\n".to_vec());
        }
        _ => panic!("an allowed tunnel was not opened"),
    }
}

#[test]
fn addresses_read_and_write_as_std_does() {
    let shown = [
        "0.0.0.0",
        "127.0.0.1",
        "255.255.255.255",
        "::",
        "::1",
        "fe80::1",
        "2001:db8::8:800:200c:417a",
        "1:0:0:2::3",
        "::ffff:1.2.3.4",
        "1:2:3:4:5:6:7:8",
    ];
    for s in shown {
        let ip = IpAddr::parse(s).unwrap();
        assert_eq!(ip.to_text(), s);
    }
    for s in ["", "1.2.3", "1.2.3.256", "01.2.3.4", "1::2::3", ":1", "g::1", "1.2.3.4.5"] {
        assert!(IpAddr::parse(s).is_none(), "{s}");
    }
}
