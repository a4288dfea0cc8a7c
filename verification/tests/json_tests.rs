use odoo_mcp::json::Json;

fn s(v: &str) -> Json {
    Json::Str(v.to_string())
}

fn object(fields: Vec<(&str, Json)>) -> Json {
    Json::Object(fields.into_iter().map(|(k, v)| (k.to_string(), v)).collect())
}

#[test]
fn get_finds_first_member() {
    let v = object(vec![("a", Json::Int(1)), ("b", s("x")), ("a", Json::Int(2))]);
    assert_eq!(v.get("a"), Some(&Json::Int(1)));
    assert_eq!(v.get("b"), Some(&s("x")));
    assert_eq!(v.get("c"), None);
    assert_eq!(Json::Array(vec![Json::Int(1)]).get("a"), None);
}

#[test]
fn typed_member_access() {
    let v = object(vec![
        ("name", s("x")),
        ("n", Json::Int(5)),
        ("neg", Json::Int(-5)),
        ("big", Json::UInt(u64::MAX)),
        ("f", Json::Float("1.5".to_string())),
    ]);
    assert_eq!(v.get_str("name"), Some("x".to_string()));
    assert_eq!(v.get_str("n"), None);
    assert_eq!(v.get_str("missing"), None);
    assert_eq!(v.get_u64("n"), Some(5));
    assert_eq!(v.get_u64("neg"), None);
    assert_eq!(v.get_u64("big"), Some(u64::MAX));
    assert_eq!(v.get_u64("f"), None);
    assert_eq!(v.member("n"), Json::Int(5));
    assert_eq!(v.member("missing"), Json::Null);
    assert_eq!(Json::from_u64(u64::MAX), Json::UInt(u64::MAX));
    assert_eq!(Json::from_u64(3), Json::Int(3));
}

#[test]
fn duplicate_is_deep_copy() {
    let v = object(vec![("list", Json::Array(vec![Json::Bool(true), Json::Null, s("q")]))]);
    assert_eq!(v.duplicate(), v);
}
