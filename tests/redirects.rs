use sr_redirect::handler::{error_handler, page_for, Reply};
use sr_redirect::rule::{ParseError, RedirEntry, Route};

fn vars(pairs: &[(&str, &str)]) -> Vec<(String, String)> {
    pairs.iter().map(|(k, v)| (k.to_string(), v.to_string())).collect()
}

fn base_rule() -> Vec<(String, String)> {
    vars(&[
        ("SR_REDIR_A", "/x,/y"),
        ("SR_REDIR_A__TARGET", "https://dst.example"),
        ("SR_REDIR_A__CODE", "302"),
    ])
}

fn with(mut v: Vec<(String, String)>, key: &str, value: &str) -> Vec<(String, String)> {
    v.push((key.to_string(), value.to_string()));
    v
}

fn routes(v: &Vec<(String, String)>) -> Vec<Route> {
    match RedirEntry::get_routers(v) {
        Ok(r) => r,
        Err(e) => panic!("{}", e.message()),
    }
}

fn answer(rs: &[Route], path: &str, query: Option<&str>) -> Reply {
    let route = rs.iter().find(|r| r.path == path).expect("route for path");
    route.handler.handle(query)
}

fn header(r: &Reply) -> (String, String) {
    r.header.clone().expect("a header")
}

fn err_of(v: &Vec<(String, String)>) -> ParseError {
    match RedirEntry::get_routers(v) {
        Ok(_) => panic!("expected an error"),
        Err(e) => e,
    }
}

fn assert_missing(e: ParseError, key: &str) {
    match e {
        ParseError::Missing(k) => assert_eq!(k, key),
        ParseError::WrongFormat(k, t) => panic!("unexpected WrongFormat({k}, {t})"),
    }
}

fn assert_wrong_format(e: ParseError, key: &str, ty: &str) {
    match e {
        ParseError::WrongFormat(k, t) => {
            assert_eq!(k, key);
            assert_eq!(t, ty);
        }
        ParseError::Missing(k) => panic!("unexpected Missing({k})"),
    }
}

#[test]
fn both_paths_redirect_with_configured_code() {
    let rs = routes(&base_rule());
    assert_eq!(rs.len(), 2);
    for path in ["/x", "/y"] {
        let r = answer(&rs, path, None);
        assert_eq!(r.status, 302);
        assert_eq!(header(&r), ("Location".to_string(), "https://dst.example".to_string()));
        assert_eq!(r.body, "");
    }
}

#[test]
fn query_is_dropped_without_preserve_params() {
    let rs = routes(&base_rule());
    let r = answer(&rs, "/x", Some("a=1&b=2"));
    assert_eq!(header(&r).1, "https://dst.example");
}

#[test]
fn preserve_params_appends_query() {
    let rs = routes(&with(base_rule(), "SR_REDIR_A__PRESERVE_PARAMS", "true"));
    let r = answer(&rs, "/x", Some("a=1&b=2"));
    assert_eq!(r.status, 302);
    assert_eq!(header(&r), ("Location".to_string(), "https://dst.example?a=1&b=2".to_string()));
}

#[test]
fn preserve_params_without_query_adds_no_question_mark() {
    let rs = routes(&with(base_rule(), "SR_REDIR_A__PRESERVE_PARAMS", "true"));
    assert_eq!(header(&answer(&rs, "/x", None)).1, "https://dst.example");
    assert_eq!(header(&answer(&rs, "/x", Some(""))).1, "https://dst.example");
}

#[test]
fn js_only_serves_html_page() {
    let rs = routes(&with(base_rule(), "SR_REDIR_A__JS_ONLY", "true"));
    let r = answer(&rs, "/x", None);
    assert_eq!(r.status, 200);
    assert_eq!(header(&r), ("Content-Type".to_string(), "text/html".to_string()));
    assert_eq!(r.body.matches("url=https://dst.example").count(), 1);
    assert_eq!(r.body.matches("href=\"https://dst.example\"").count(), 1);
    assert!(!r.body.contains("{REDIRECT_URL}"));
}

#[test]
fn js_only_page_carries_query() {
    let v = with(with(base_rule(), "SR_REDIR_A__JS_ONLY", "true"), "SR_REDIR_A__PRESERVE_PARAMS", "true");
    let rs = routes(&v);
    let r = answer(&rs, "/y", Some("q=1"));
    assert_eq!(r.body, page_for("https://dst.example?q=1"));
}

#[test]
fn page_fills_both_places() {
    assert_eq!(
        page_for("U"),
        "<!DOCTYPE html><html><head><meta http-equiv=\"refresh\" content=\"0;url=U\"><title>Redirecting...</title></head><body><p>If you are not redirected, <a href=\"U\">click here</a>.</p></body></html>"
    );
}

#[test]
fn missing_target_is_missing_error() {
    let v = vars(&[("SR_REDIR_A", "/x,/y"), ("SR_REDIR_A__CODE", "302")]);
    assert_missing(err_of(&v), "SR_REDIR_A__TARGET");
}

#[test]
fn missing_code_is_missing_error() {
    let v = vars(&[("SR_REDIR_A", "/x"), ("SR_REDIR_A__TARGET", "t")]);
    assert_missing(err_of(&v), "SR_REDIR_A__CODE");
}

#[test]
fn undeclared_name_misses_its_paths() {
    let v = base_rule();
    match RedirEntry::from_vars(&v, "B") {
        Err(e) => assert_missing(e, "SR_REDIR_B"),
        Ok(_) => panic!("expected an error"),
    }
}

#[test]
fn non_numeric_code_is_wrong_format() {
    let v = vars(&[("SR_REDIR_A", "/x"), ("SR_REDIR_A__TARGET", "t"), ("SR_REDIR_A__CODE", "abc")]);
    assert_wrong_format(err_of(&v), "SR_REDIR_A__CODE", "Integer");
}

#[test]
fn code_outside_status_range_is_wrong_format() {
    for code in ["99", "1000", "70000", "-302", "+", "", "30 2"] {
        let v = vars(&[("SR_REDIR_A", "/x"), ("SR_REDIR_A__TARGET", "t"), ("SR_REDIR_A__CODE", code)]);
        assert_wrong_format(err_of(&v), "SR_REDIR_A__CODE", "Integer");
    }
}

#[test]
fn code_bounds_and_plus_sign_are_accepted() {
    for (code, expected) in [("100", 100u16), ("999", 999), ("+301", 301), ("0307", 307)] {
        let v = vars(&[("SR_REDIR_A", "/x"), ("SR_REDIR_A__TARGET", "t"), ("SR_REDIR_A__CODE", code)]);
        let rs = routes(&v);
        assert_eq!(answer(&rs, "/x", None).status, expected);
    }
}

#[test]
fn bad_flags_are_wrong_format() {
    let v = with(base_rule(), "SR_REDIR_A__JS_ONLY", "yes");
    assert_wrong_format(err_of(&v), "SR_REDIR_A__JS_ONLY", "Boolean");
    let v = with(base_rule(), "SR_REDIR_A__PRESERVE_PARAMS", "TRUE");
    assert_wrong_format(err_of(&v), "SR_REDIR_A__PRESERVE_PARAMS", "Boolean");
}

#[test]
fn explicit_false_flags_keep_header_redirect() {
    let v = with(with(base_rule(), "SR_REDIR_A__JS_ONLY", "false"), "SR_REDIR_A__PRESERVE_PARAMS", "false");
    let rs = routes(&v);
    let r = answer(&rs, "/x", Some("a=1"));
    assert_eq!(r.status, 302);
    assert_eq!(header(&r).1, "https://dst.example");
}

#[test]
fn first_error_in_field_order_wins() {
    let v = vars(&[("SR_REDIR_A", "/x"), ("SR_REDIR_A__CODE", "abc"), ("SR_REDIR_A__JS_ONLY", "no")]);
    assert_missing(err_of(&v), "SR_REDIR_A__TARGET");
    let v = vars(&[
        ("SR_REDIR_A", "/x"),
        ("SR_REDIR_A__TARGET", "t"),
        ("SR_REDIR_A__CODE", "abc"),
        ("SR_REDIR_A__JS_ONLY", "no"),
    ]);
    assert_wrong_format(err_of(&v), "SR_REDIR_A__CODE", "Integer");
}

#[test]
fn one_failing_rule_fails_the_table() {
    let v = with(base_rule(), "SR_REDIR_B", "/z");
    assert_missing(err_of(&v), "SR_REDIR_B__TARGET");
}

#[test]
fn one_route_per_path_of_every_rule() {
    let v = vars(&[
        ("SR_REDIR_A", "/a1,/a2"),
        ("SR_REDIR_A__TARGET", "https://a.example"),
        ("SR_REDIR_A__CODE", "301"),
        ("SR_REDIR_B", "/b1,/b2,/b3"),
        ("SR_REDIR_B__TARGET", "https://b.example"),
        ("SR_REDIR_B__CODE", "307"),
    ]);
    let rs = routes(&v);
    let paths: Vec<&str> = rs.iter().map(|r| r.path.as_str()).collect();
    assert_eq!(paths, vec!["/a1", "/a2", "/b1", "/b2", "/b3"]);
    for (path, code, target) in [
        ("/a1", 301, "https://a.example"),
        ("/a2", 301, "https://a.example"),
        ("/b1", 307, "https://b.example"),
        ("/b3", 307, "https://b.example"),
    ] {
        let r = answer(&rs, path, None);
        assert_eq!(r.status, code);
        assert_eq!(header(&r).1, target);
    }
}

#[test]
fn empty_path_segments_are_skipped_and_duplicates_kept() {
    let v = vars(&[("SR_REDIR_A", ",/x,,/y,/x,"), ("SR_REDIR_A__TARGET", "t"), ("SR_REDIR_A__CODE", "308")]);
    let rs = routes(&v);
    let paths: Vec<&str> = rs.iter().map(|r| r.path.as_str()).collect();
    assert_eq!(paths, vec!["/x", "/y", "/x"]);
    assert_eq!(rs[0].handler.entry().paths, vec!["/x".to_string(), "/y".to_string(), "/x".to_string()]);
}

#[test]
fn only_commas_give_no_routes() {
    let v = vars(&[("SR_REDIR_A", ",,"), ("SR_REDIR_A__TARGET", "t"), ("SR_REDIR_A__CODE", "302")]);
    assert_eq!(routes(&v).len(), 0);
}

#[test]
fn no_rules_give_empty_table() {
    let v = vars(&[("SR_REDIR__HOST", "127.0.0.1:9000"), ("PATH", "/bin")]);
    assert_eq!(routes(&v).len(), 0);
}

#[test]
fn same_request_same_reply() {
    let v = with(with(base_rule(), "SR_REDIR_A__JS_ONLY", "true"), "SR_REDIR_A__PRESERVE_PARAMS", "true");
    let rs = routes(&v);
    let first = answer(&rs, "/x", Some("a=1"));
    let second = answer(&rs, "/x", Some("a=1"));
    assert_eq!(first.status, second.status);
    assert_eq!(first.header, second.header);
    assert_eq!(first.body, second.body);
    let rs = routes(&base_rule());
    let first = answer(&rs, "/y", None);
    let second = answer(&rs, "/y", None);
    assert_eq!((first.status, first.header, first.body), (second.status, second.header, second.body));
}

#[test]
fn unknown_path_is_not_found() {
    let r = error_handler();
    assert_eq!(r.status, 404);
    assert!(r.header.is_none());
    assert_eq!(r.body, "");
}

#[test]
fn error_messages() {
    assert_eq!(
        ParseError::Missing("SR_REDIR_A__TARGET".to_string()).message(),
        "Variable \"SR_REDIR_A__TARGET\" is missing! Exiting."
    );
    assert_eq!(
        ParseError::WrongFormat("SR_REDIR_A__CODE".to_string(), "Integer".to_string()).message(),
        "Variable \"SR_REDIR_A__CODE\" has wrong type, expected Integer! Exiting."
    );
}
