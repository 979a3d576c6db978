use dahuavto::json::{find_member, Json, Payload};

#[test]
fn values_are_written() {
    let value = Json::object()
        .with("b", Json::Int(-3))
        .with("a", Json::text("门\"\n"))
        .with("list", Json::Array(vec![Json::Bool(true), Json::Bool(false), Json::object()]));
    assert_eq!(value.to_text(), "{\"a\":\"门\\\"\\n\",\"b\":-3,\"list\":[true,false,{}]}");
}

#[test]
fn last_member_counts() {
    let value = Json::object().with("a", Json::Int(1)).with("a", Json::Int(2));
    assert_eq!(value.to_text(), "{\"a\":2}");
    assert_eq!(value.to_value()["a"].as_i64(), Some(2));
}

#[test]
fn members_are_found() {
    let members = vec![
        ("a".to_string(), Payload::Int(1)),
        ("b".to_string(), Payload::Text("x".to_string())),
    ];
    assert!(matches!(find_member(&members, "a"), Some(Payload::Int(1))));
    assert!(find_member(&members, "c").is_none());
    let object = Payload::Object(members);
    assert_eq!(object.get("b").unwrap().text_or("none"), "x");
    assert_eq!(object.get("a").unwrap().text_or("none"), "none");
    assert!(object.get("a").unwrap().is_number());
    assert!(Payload::Number.is_number());
    assert!(!Payload::Null.is_number());
    assert!(Payload::Array(vec![]).get("a").is_none());
}
