//! Paths, bodies and replies of the backend.

use strobes::api;
use strobes::egress_proxy;
use strobes::json;
use strobes::markdown;

#[test]
fn paths_have_their_parameters() {
    assert_eq!(api::org_path("/api/v1", "o", "/x/"), "/api/v1/organizations/o/x/");
    assert_eq!(api::threads_suffix(None), "/cli/threads/");
    assert_eq!(api::threads_suffix(Some("w")), "/cli/threads/?workspace_id=w");
    assert_eq!(api::messages_suffix("t", 50), "/cli/threads/t/messages/?limit=50");
    assert_eq!(api::events_suffix("t", -1, 9), "/cli/threads/t/events/?after_seq=-1&limit=9");
    assert_eq!(api::authorization("k"), "token k");
    assert!(api::is_success(204) && !api::is_success(300) && !api::is_success(199));
}

#[test]
fn errors_quote_the_reply() {
    assert_eq!(api::http_error("GET", "/p", 404, "no"), "GET /p -> HTTP 404: no");
    let long = "x".repeat(301);
    assert_eq!(api::http_error("GET", "/p", 500, &long), format!("GET /p -> HTTP 500: {}…", "x".repeat(300)));
    assert_eq!(api::trunc("héllo", 3), "hé…");
}

#[test]
fn replies_name_what_was_made() {
    let j = |s: &str| json::parse(s).unwrap();
    assert_eq!(api::created_thread(&j("{\"id\": \"t\"}")).unwrap(), "t");
    assert!(api::created_thread(&j("{}")).is_err());
    assert_eq!(
        api::created_workspace(&j("{\"id\": \"w\", \"setup_thread_id\": \"s\"}")).unwrap(),
        ("w".to_string(), Some("s".to_string()))
    );
    assert_eq!(api::download_url(&j("{\"url\": \"u\"}")).unwrap(), "u");
    assert!(api::download_url(&j("{}")).is_err());
    assert_eq!(json::to_text(&api::parse_body("")), "null");
}

#[test]
fn literals_are_quoted() {
    assert_eq!(api::gql_string("a\"b"), "\"\"\"a\"b\"\"\"");
    assert_eq!(api::gql_string("\"\"\"\\\n"), "\"\\\"\\\"\\\"\\\\\\n\"");
    let j = json::parse("{\"a\": [1, true, null], \"b\": \"x\"}").unwrap();
    assert_eq!(api::json_to_gql_input(&j), "{ a: [1, true, null], b: \"\"\"x\"\"\" }");
    assert_eq!(api::model_name(&vec![], None), "Default");
}

#[test]
fn errors_of_the_proxy_show_the_target() {
    let e = match egress_proxy::parse_request(b"GET not-a-url\" HTTP/1.1\r\n\r\n") {
        Ok(_) => panic!("expected an error"),
        Err(e) => e,
    };
    assert!(e.contains("\"not-a-url\\\"\""), "{e}");
}

#[test]
fn links_are_found() {
    let l = markdown::extract_links("see [a](http://x/y) and http://z.example/q?x=1).");
    assert!(l.contains(&("a".to_string(), "http://x/y".to_string())), "{l:?}");
    assert_eq!(markdown::find_urls("go http://a.example, now"), vec!["http://a.example".to_string()]);
}
