use romad::json::{find_member, Json, Number};

fn text(s: &str) -> Json {
    Json::String(s.to_string())
}

fn unsigned(n: u128) -> Json {
    Json::Number(Number::Unsigned(n))
}

#[test]
fn parse_reads_the_scalars() {
    assert_eq!(Json::parse("null"), Ok(Json::Null));
    assert_eq!(Json::parse("true"), Ok(Json::Bool(true)));
    assert_eq!(Json::parse("false"), Ok(Json::Bool(false)));
    assert_eq!(Json::parse("\"dc1\""), Ok(text("dc1")));
    assert_eq!(Json::parse("50"), Ok(unsigned(50)));
}

#[test]
fn parse_tells_the_kinds_of_number_apart() {
    assert_eq!(Json::parse("0"), Ok(unsigned(0)));
    assert_eq!(Json::parse("-7"), Ok(Json::Number(Number::Negative(-7))));
    assert_eq!(Json::parse("1.5"), Ok(Json::Number(Number::Real)));
    assert_eq!(Json::parse("1e2"), Ok(Json::Number(Number::Real)));
    assert_eq!(Json::parse("-0"), Ok(Json::Number(Number::Real)));
}

#[test]
fn parse_keeps_integers_of_128_bits() {
    assert_eq!(Json::parse("18446744073709551616"), Ok(unsigned(18446744073709551616)));
    assert_eq!(
        Json::parse("340282366920938463463374607431768211455"),
        Ok(unsigned(u128::MAX))
    );
    assert_eq!(
        Json::parse("-170141183460469231731687303715884105728"),
        Ok(Json::Number(Number::Negative(i128::MIN)))
    );
    assert_eq!(
        Json::parse("340282366920938463463374607431768211456"),
        Ok(Json::Number(Number::Real))
    );
    assert_eq!(
        Json::parse("-170141183460469231731687303715884105729"),
        Ok(Json::Number(Number::Real))
    );
}

#[test]
fn parse_resolves_escapes_in_strings() {
    assert_eq!(Json::parse(r#""a\"b\\c\né""#), Ok(text("a\"b\\c\n\u{e9}")));
    assert_eq!(Json::parse("\"\""), Ok(text("")));
}

#[test]
fn parse_keeps_the_order_of_an_array() {
    assert_eq!(
        Json::parse("[3, \"x\", null, [true]]"),
        Ok(Json::Array(vec![
            unsigned(3),
            text("x"),
            Json::Null,
            Json::Array(vec![Json::Bool(true)]),
        ]))
    );
    assert_eq!(Json::parse("[]"), Ok(Json::Array(vec![])));
}

#[test]
fn parse_reads_the_members_of_an_object() {
    let doc = Json::parse(r#"{"b": 1, "a": {"c": []}}"#).unwrap();
    let members = match &doc {
        Json::Object(members) => members,
        other => panic!("not an object: {:?}", other),
    };
    assert_eq!(members.len(), 2);
    assert_eq!(find_member(members, "b"), Some(&unsigned(1)));
    assert_eq!(
        find_member(members, "a"),
        Some(&Json::Object(vec![("c".to_string(), Json::Array(vec![]))]))
    );
    assert_eq!(find_member(members, "c"), None);
    assert_eq!(Json::parse("{}"), Ok(Json::Object(vec![])));
}

#[test]
fn parse_keeps_the_last_of_two_members_of_one_name() {
    let doc = Json::parse(r#"{"a": 1, "a": 2}"#).unwrap();
    assert_eq!(doc, Json::Object(vec![("a".to_string(), unsigned(2))]));
}

#[test]
fn parse_refuses_what_is_no_document() {
    assert!(Json::parse("").is_err());
    assert!(Json::parse("{").is_err());
    assert!(Json::parse("[1, 2").is_err());
    assert!(Json::parse("nul").is_err());
    assert!(Json::parse("{\"a\": 1} x").is_err());
    assert!(Json::parse("01").is_err());
}

#[test]
fn parse_error_carries_the_parsers_description() {
    assert_eq!(
        Json::parse("[1,").unwrap_err(),
        "EOF while parsing a value at line 1 column 3"
    );
    assert_eq!(
        Json::parse("{\"a\" 1}").unwrap_err(),
        "expected `:` at line 1 column 6"
    );
}

#[test]
fn from_value_copies_a_value_built_by_hand() {
    let mut map = serde_json::Map::new();
    map.insert("n".to_string(), serde_json::Value::from(-3i64));
    map.insert("s".to_string(), serde_json::Value::from("x"));
    let value = serde_json::Value::Array(vec![
        serde_json::Value::Object(map),
        serde_json::Value::Null,
        serde_json::Value::Bool(false),
    ]);
    assert_eq!(
        Json::from_value(&value),
        Json::Array(vec![
            Json::Object(vec![
                ("n".to_string(), Json::Number(Number::Negative(-3))),
                ("s".to_string(), text("x")),
            ]),
            Json::Null,
            Json::Bool(false),
        ])
    );
}

#[test]
fn find_member_takes_the_last_of_a_repeated_name() {
    let members = vec![
        ("a".to_string(), unsigned(1)),
        ("b".to_string(), unsigned(2)),
        ("a".to_string(), unsigned(3)),
    ];
    assert_eq!(find_member(&members, "a"), Some(&unsigned(3)));
    assert_eq!(find_member(&members, "b"), Some(&unsigned(2)));
    assert_eq!(find_member(&members, "A"), None);
    assert_eq!(find_member(&members, ""), None);
    assert_eq!(find_member(&Vec::new(), "a"), None);
}
