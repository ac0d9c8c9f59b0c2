use notisr::json::{Json, Member};

#[test]
fn parse_reads_an_object_with_its_members() {
    let json = Json::parse(r#"{"type":"ka","id":"7","n":[1,true,null]}"#).unwrap();
    assert_eq!(json.get("type"), Some(&Json::Str("ka".to_string())));
    assert_eq!(json.get("id").and_then(|v| v.as_str()), Some("7"));
    assert_eq!(json.get("missing"), None);
    let items = json.get("n").and_then(|v| v.as_array()).unwrap();
    assert_eq!(items.len(), 3);
    assert_eq!(items[0], Json::Number(serde_json::Number::from(1)));
    assert_eq!(items[1], Json::Bool(true));
    assert_eq!(items[2], Json::Null);
}

#[test]
fn parse_refuses_what_is_no_json() {
    assert_eq!(Json::parse(""), None);
    assert_eq!(Json::parse("{"), None);
    assert_eq!(Json::parse("{\"a\":1} trailing"), None);
    assert_eq!(Json::parse("not json"), None);
}

#[test]
fn parse_reads_scalars() {
    assert_eq!(Json::parse("null"), Some(Json::Null));
    assert_eq!(Json::parse("false"), Some(Json::Bool(false)));
    assert_eq!(Json::parse("\"a\\nb\""), Some(Json::Str("a\nb".to_string())));
    assert_eq!(Json::parse("[]"), Some(Json::Array(vec![])));
}

#[test]
fn text_is_compact_json() {
    let json = Json::Object(vec![
        Member { name: "id".to_string(), value: Json::Str("x\"y".to_string()) },
        Member { name: "list".to_string(), value: Json::Array(vec![Json::Null, Json::Bool(true)]) },
    ]);
    assert_eq!(json.to_text(), r#"{"id":"x\"y","list":[null,true]}"#);
    assert_eq!(Json::Null.to_text(), "null");
    assert_eq!(Json::string("plain").to_text(), "\"plain\"");
}

#[test]
fn text_reads_back_as_the_same_value() {
    let json = Json::Object(vec![
        Member::new("a", Json::string("1")),
        Member::new("b", Json::Object(vec![Member::new("c", Json::Array(vec![Json::Bool(false)]))])),
    ]);
    assert_eq!(Json::parse(&json.to_text()), Some(json));
}

#[test]
fn get_is_for_objects_only() {
    assert_eq!(Json::Null.get("a"), None);
    assert_eq!(Json::Array(vec![Json::Null]).get("a"), None);
    assert_eq!(Json::string("a").get("a"), None);
    let object = Json::object(vec![Member::new("a", Json::Null)]);
    assert_eq!(object.get("a"), Some(&Json::Null));
    assert_eq!(object.get("A"), None);
}

#[test]
fn accessors_tell_the_kinds_apart() {
    assert_eq!(Json::string("s").as_str(), Some("s"));
    assert_eq!(Json::Null.as_str(), None);
    assert_eq!(Json::Array(vec![]).first(), None);
    assert_eq!(Json::Array(vec![Json::Bool(true), Json::Null]).first(), Some(&Json::Bool(true)));
    assert_eq!(Json::string("s").first(), None);
    assert!(Json::Null.as_array().is_none());
}

#[test]
fn duplicate_is_equal_to_the_original() {
    let json = Json::parse(r#"{"a":[1,2.5,{"b":null}],"c":"d","e":true}"#).unwrap();
    assert_eq!(json.duplicate(), json);
}

#[test]
fn later_member_of_the_same_name_counts() {
    let json = Json::Object(vec![
        Member::new("a", Json::string("first")),
        Member::new("b", Json::Null),
        Member::new("a", Json::string("second")),
    ]);
    assert_eq!(json.get("a"), Some(&Json::Str("second".to_string())));
    assert_eq!(json.to_text(), r#"{"a":"second","b":null}"#);
    let parsed = Json::parse(r#"{"a":1,"a":2}"#).unwrap();
    assert_eq!(parsed.get("a"), Some(&Json::Number(serde_json::Number::from(2))));
    assert_eq!(parsed.as_array(), None);
}
