use matrix_openai_bot::json::{Json, SyntaxError};

#[test]
fn parse_reads_scalars() {
    assert_eq!(Json::parse("null"), Ok(Json::Null));
    assert_eq!(Json::parse("true"), Ok(Json::Bool(true)));
    assert_eq!(Json::parse("false"), Ok(Json::Bool(false)));
    assert_eq!(Json::parse("\"a\\nb\""), Ok(Json::Text("a\nb".to_string())));
}

#[test]
fn parse_tells_numbers_apart() {
    assert_eq!(Json::parse("0"), Ok(Json::Unsigned(0)));
    assert_eq!(Json::parse("18446744073709551615"), Ok(Json::Unsigned(u64::MAX)));
    assert_eq!(Json::parse("-1"), Ok(Json::Negative(-1)));
    assert_eq!(Json::parse("-9223372036854775808"), Ok(Json::Negative(i64::MIN)));
    assert_eq!(Json::parse("1.5"), Ok(Json::Real("1.5".to_string())));
}

#[test]
fn parse_reads_arrays_and_objects() {
    assert_eq!(
        Json::parse("[1, \"x\", [], {}]"),
        Ok(Json::Array(vec![
            Json::Unsigned(1),
            Json::Text("x".to_string()),
            Json::Array(vec![]),
            Json::Object(vec![]),
        ]))
    );
    assert_eq!(
        Json::parse("{\"b\": 1, \"a\": {\"c\": null}}"),
        Ok(Json::Object(vec![
            ("a".to_string(), Json::Object(vec![("c".to_string(), Json::Null)])),
            ("b".to_string(), Json::Unsigned(1)),
        ]))
    );
}

#[test]
fn parse_refuses_what_is_no_json() {
    assert_eq!(Json::parse(""), Err(SyntaxError));
    assert_eq!(Json::parse("{"), Err(SyntaxError));
    assert_eq!(Json::parse("{\"a\": 1} x"), Err(SyntaxError));
    assert_eq!(Json::parse("https://x"), Err(SyntaxError));
}

#[test]
fn get_finds_the_first_member_of_a_name() {
    let object = Json::Object(vec![
        ("a".to_string(), Json::Unsigned(1)),
        ("b".to_string(), Json::Unsigned(2)),
        ("a".to_string(), Json::Unsigned(3)),
    ]);
    assert_eq!(object.get("a"), Some(&Json::Unsigned(1)));
    assert_eq!(object.get("b"), Some(&Json::Unsigned(2)));
    assert_eq!(object.get("c"), None);
    assert_eq!(Json::Array(vec![]).get("a"), None);
    assert_eq!(Json::Text("a".to_string()).get("a"), None);
}

#[test]
fn accessors_read_one_kind_each() {
    let text = Json::text("hi");
    assert_eq!(text, Json::Text("hi".to_string()));
    assert_eq!(text.as_str(), Some("hi"));
    assert_eq!(text.as_array(), None);
    assert_eq!(text.as_u64(), None);
    let array = Json::array(vec![Json::Null]);
    assert_eq!(array.as_array(), Some(&vec![Json::Null]));
    assert_eq!(array.as_str(), None);
    assert_eq!(Json::Unsigned(7).as_u64(), Some(7));
    assert_eq!(Json::Negative(-7).as_u64(), None);
    assert_eq!(Json::Real("7.0".to_string()).as_u64(), None);
    assert_eq!(Json::object(vec![]), Json::Object(vec![]));
}

#[test]
fn clone_copies_the_whole_document() {
    let document = Json::parse("{\"a\": [1, -2, 2.5, \"x\", null, true, {\"b\": []}]}").unwrap();
    assert_eq!(document.clone(), document);
}
