use chat_relay::json::{parse, print, Json};
use chat_relay::text::same_text;

fn text(s: &str) -> Json {
    Json::Str(s.to_string())
}

fn member(key: &str, value: Json) -> (String, Json) {
    (key.to_string(), value)
}

#[test]
fn same_text_compares_characters() {
    assert!(same_text("", ""));
    assert!(same_text("alice", "alice"));
    assert!(!same_text("alice", "Alice"));
    assert!(!same_text("alice", "alic"));
    assert!(!same_text("", "a"));
    assert!(same_text("h\u{e9}llo \u{1f600}", "h\u{e9}llo \u{1f600}"));
    assert!(!same_text("h\u{e9}llo", "hello"));
}

#[test]
fn parse_reads_the_literals() {
    assert_eq!(parse("null"), Some(Json::Null));
    assert_eq!(parse("true"), Some(Json::Bool(true)));
    assert_eq!(parse("false"), Some(Json::Bool(false)));
}

#[test]
fn parse_reads_unsigned_integers() {
    assert_eq!(parse("0"), Some(Json::Number(0)));
    assert_eq!(parse("42"), Some(Json::Number(42)));
    assert_eq!(parse("18446744073709551615"), Some(Json::Number(u64::MAX)));
}

#[test]
fn parse_keeps_other_numbers_apart() {
    assert_eq!(parse("-1"), Some(Json::OtherNumber(serde_json::Number::from(-1i64))));
    assert_eq!(
        parse("2.5"),
        Some(Json::OtherNumber(serde_json::Number::from_f64(2.5).unwrap()))
    );
    assert_eq!(
        parse("3.0"),
        Some(Json::OtherNumber(serde_json::Number::from_f64(3.0).unwrap()))
    );
    match parse("18446744073709551616") {
        Some(Json::OtherNumber(_)) => {}
        other => panic!("expected a number out of range, got {:?}", other),
    }
}

#[test]
fn parse_reads_strings_with_escapes() {
    assert_eq!(parse(r#""hi""#), Some(text("hi")));
    assert_eq!(parse(r#""a\nb\t\"c\"\\""#), Some(text("a\nb\t\"c\"\\")));
    assert_eq!(parse(r#""\u00e9\ud83d\ude00""#), Some(text("\u{e9}\u{1f600}")));
    assert_eq!(parse(r#""""#), Some(text("")));
}

#[test]
fn parse_reads_arrays_and_objects_in_document_order() {
    assert_eq!(
        parse(r#"[1, "x", null, [true]]"#),
        Some(Json::Array(vec![
            Json::Number(1),
            text("x"),
            Json::Null,
            Json::Array(vec![Json::Bool(true)]),
        ]))
    );
    assert_eq!(
        parse(r#" { "b" : 1 , "a" : { "c" : [] } } "#),
        Some(Json::Object(vec![
            member("b", Json::Number(1)),
            member("a", Json::Object(vec![member("c", Json::Array(vec![]))])),
        ]))
    );
    assert_eq!(parse("{}"), Some(Json::Object(vec![])));
}

#[test]
fn parse_keeps_the_last_of_two_members_with_one_name() {
    assert_eq!(
        parse(r#"{"a":1,"b":2,"a":3}"#),
        Some(Json::Object(vec![member("a", Json::Number(3)), member("b", Json::Number(2))]))
    );
}

#[test]
fn parse_refuses_what_is_not_json() {
    for bad in ["", " ", "{", "}", "[1,]", "{\"a\":}", "nul", "1 2", "{'a':1}", "\"open", "{\"a\":1,}", "hello", "01"] {
        assert_eq!(parse(bad), None, "{:?}", bad);
    }
}

#[test]
fn print_writes_compact_text() {
    assert_eq!(print(&Json::Null), "null");
    assert_eq!(print(&Json::Bool(true)), "true");
    assert_eq!(print(&Json::Number(7)), "7");
    assert_eq!(print(&Json::Number(u64::MAX)), "18446744073709551615");
    assert_eq!(print(&Json::OtherNumber(serde_json::Number::from(-12i64))), "-12");
    assert_eq!(print(&text("hi")), "\"hi\"");
    assert_eq!(print(&Json::Array(vec![])), "[]");
    assert_eq!(print(&Json::Object(vec![])), "{}");
    assert_eq!(
        print(&Json::Array(vec![Json::Number(1), text("x"), Json::Null])),
        r#"[1,"x",null]"#
    );
}

#[test]
fn print_escapes_strings() {
    assert_eq!(print(&text("a\"b\\c\nd\te\u{1}")), r#""a\"b\\c\nd\te\u0001""#);
    assert_eq!(print(&text("\u{e9}\u{1f600}")), "\"\u{e9}\u{1f600}\"");
}

#[test]
fn print_keeps_the_order_of_the_members() {
    let json = Json::Object(vec![
        member("zeta", Json::Number(1)),
        member("alpha", Json::Object(vec![member("k", text("v"))])),
        member("mid", Json::Array(vec![Json::Bool(false)])),
    ]);
    assert_eq!(print(&json), r#"{"zeta":1,"alpha":{"k":"v"},"mid":[false]}"#);
}

#[test]
fn print_then_parse_gives_the_document_back() {
    let json = Json::Object(vec![
        member("name", text("al\"ice\n")),
        member("n", Json::Number(3)),
        member("neg", Json::OtherNumber(serde_json::Number::from(-3i64))),
        member("list", Json::Array(vec![text("a"), Json::Null, Json::Bool(true)])),
        member("inner", Json::Object(vec![member("x", Json::Number(0))])),
    ]);
    assert_eq!(parse(&print(&json)), Some(json));
}

#[test]
fn parse_then_print_normalises_the_text() {
    let json = parse(" { \"a\" : [ 1 , 2 ] , \"b\" : \"\\u0041\" } ").unwrap();
    assert_eq!(print(&json), r#"{"a":[1,2],"b":"A"}"#);
}

#[test]
fn get_finds_the_first_member_of_that_name() {
    let json = Json::Object(vec![
        member("a", Json::Number(1)),
        member("b", Json::Number(2)),
        member("a", Json::Number(3)),
    ]);
    assert_eq!(json.get("a"), Some(&Json::Number(1)));
    assert_eq!(json.get("b"), Some(&Json::Number(2)));
    assert_eq!(json.get("c"), None);
    assert_eq!(json.get(""), None);
    assert_eq!(Json::Array(vec![text("a")]).get("a"), None);
    assert_eq!(text("a").get("a"), None);
    assert_eq!(Json::Null.get("a"), None);
}

#[test]
fn accessors_tell_the_variants_apart() {
    assert_eq!(text("x").as_str(), Some("x"));
    assert_eq!(Json::Number(1).as_str(), None);
    assert_eq!(Json::Null.as_str(), None);

    assert_eq!(Json::Number(9).as_u64(), Some(9));
    assert_eq!(Json::OtherNumber(serde_json::Number::from(-9i64)).as_u64(), None);
    assert_eq!(text("9").as_u64(), None);

    let items = vec![Json::Number(1), Json::Null];
    assert_eq!(Json::Array(vec![Json::Number(1), Json::Null]).as_array(), Some(&items));
    assert_eq!(Json::Object(vec![]).as_array(), None);

    assert!(Json::Null.is_null());
    assert!(!Json::Bool(false).is_null());
    assert!(!text("").is_null());
}
