use routing::error::RouteError;
use regex::escape;
use routing::pattern::CompiledPattern;
use routing::template::compile_body;

#[test]
fn body_escapes_literal_runs_and_groups_parameters() {
    let (body, names) = compile_body("/a.b/{id}/c").unwrap();
    assert_eq!(body, format!("{}([^/]+){}", escape("/a.b/"), escape("/c")));
    assert_eq!(names, vec!["id".to_string()]);
}

#[test]
fn escape_changes_metacharacters() {
    assert_eq!(escape("a.b"), "a\\.b");
    assert_eq!(escape("plain"), "plain");
}

#[test]
fn body_of_malformed_template_is_refused() {
    assert_eq!(compile_body("/{x"), Err(RouteError::MalformedParameter));
}

#[test]
fn prefix_pattern_matches_beginnings() {
    let p = CompiledPattern::compile("/api".to_string(), true).unwrap();
    assert!(p.is_match("/api/v1"));
    assert!(!p.is_match("/v1/api"));
    assert_eq!(p.remainder("/api/v1"), "/v1");
    let e = CompiledPattern::compile("/api".to_string(), false).unwrap();
    assert!(!e.is_match("/api/v1"));
    assert_eq!(e.template_text(), "/api");
    assert_eq!(e.param_names().len(), 0);
}

#[test]
fn captures_include_whole_match_first() {
    let p = CompiledPattern::compile("/u/{id}".to_string(), false).unwrap();
    let groups = p.captures("/u/9").unwrap();
    assert_eq!(groups, vec![Some("/u/9".to_string()), Some("9".to_string())]);
    assert!(p.captures("/v/9").is_none());
}
