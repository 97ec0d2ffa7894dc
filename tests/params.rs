use routing::params::{PathParams, RequestData};

#[test]
fn set_replaces_in_place_and_appends_new() {
    let mut p = PathParams::with_capacity(2);
    assert_eq!(p.len(), 0);
    p.set("a".to_string(), "1".to_string());
    p.set("b".to_string(), "2".to_string());
    p.set("a".to_string(), "3".to_string());
    assert_eq!(p.len(), 2);
    assert_eq!(p.get("a"), Some(&"3".to_string()));
    assert_eq!(p.get("b"), Some(&"2".to_string()));
    assert_eq!(p.get("c"), None);
}

#[test]
fn extend_keeps_earlier_names_and_adds_later_ones() {
    let mut outer = PathParams::new();
    outer.set("org".to_string(), "acme".to_string());
    outer.set("team".to_string(), "red".to_string());
    let mut inner = PathParams::new();
    inner.set("user".to_string(), "bob".to_string());
    inner.set("team".to_string(), "blue".to_string());
    let mut data = RequestData::new(outer);
    data.extend(RequestData::new(inner));
    let merged = data.path_params();
    assert_eq!(merged.len(), 3);
    assert_eq!(merged.get("org"), Some(&"acme".to_string()));
    assert_eq!(merged.get("user"), Some(&"bob".to_string()));
    assert_eq!(merged.get("team"), Some(&"blue".to_string()));
}

#[test]
fn extend_with_empty_store_changes_nothing() {
    let mut p = PathParams::new();
    p.set("x".to_string(), "1".to_string());
    p.extend(PathParams::new());
    assert_eq!(p.len(), 1);
    assert_eq!(p.get("x"), Some(&"1".to_string()));
}

#[test]
fn extend_with_new_names_appends_in_order() {
    let mut a = PathParams::new();
    a.set("x".to_string(), "1".to_string());
    let mut b = PathParams::new();
    b.set("y".to_string(), "2".to_string());
    b.set("z".to_string(), "3".to_string());
    a.extend(b);
    assert_eq!(a.len(), 3);
    assert_eq!(a.get("x"), Some(&"1".to_string()));
    assert_eq!(a.get("y"), Some(&"2".to_string()));
    assert_eq!(a.get("z"), Some(&"3".to_string()));
}
