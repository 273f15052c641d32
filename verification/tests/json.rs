use lightctl::error::DecodeError;
use lightctl::json::{find_member, parse_json, Json, Member};

fn member(name: &str, value: Json) -> Member {
    Member { name: name.to_string(), value }
}

fn number(literal: &str) -> Json {
    Json::Number(literal.to_string())
}

#[test]
fn scalars_are_read_as_they_stand() {
    assert_eq!(parse_json(b"null"), Ok(Json::Null));
    assert_eq!(parse_json(b"true"), Ok(Json::Bool(true)));
    assert_eq!(parse_json(b"false"), Ok(Json::Bool(false)));
    assert_eq!(parse_json(b"\"on\""), Ok(Json::Text("on".to_string())));
    assert_eq!(parse_json(b"  \"\"  "), Ok(Json::Text(String::new())));
}

#[test]
fn numbers_keep_their_literal() {
    assert_eq!(parse_json(b"0"), Ok(number("0")));
    assert_eq!(parse_json(b"254"), Ok(number("254")));
    assert_eq!(parse_json(b"-3"), Ok(number("-3")));
    assert_eq!(parse_json(b"0.4573"), Ok(number("0.4573")));
    assert_eq!(parse_json(b"18446744073709551615"), Ok(number("18446744073709551615")));
}

#[test]
fn a_fraction_never_reads_as_a_literal_of_digits_alone() {
    for text in ["1.0", "254.0", "1e2", "100.0", "0.0"] {
        match parse_json(text.as_bytes()) {
            Ok(Json::Number(literal)) => {
                assert!(!literal.chars().all(|c| c.is_ascii_digit()), "{literal}")
            }
            other => panic!("{other:?}"),
        }
    }
}

#[test]
fn strings_are_unescaped() {
    assert_eq!(parse_json(b"\"a\\\"b\\\\c\\n\""), Ok(Json::Text("a\"b\\c\n".to_string())));
    assert_eq!(parse_json("\"caf\u{e9}\"".as_bytes()), Ok(Json::Text("caf\u{e9}".to_string())));
    assert_eq!(parse_json(b"\"\\u00e9\""), Ok(Json::Text("\u{e9}".to_string())));
}

#[test]
fn arrays_keep_their_order() {
    assert_eq!(parse_json(b"[]"), Ok(Json::Array(vec![])));
    assert_eq!(
        parse_json(b"[1, \"two\", [true], null]"),
        Ok(Json::Array(vec![
            number("1"),
            Json::Text("two".to_string()),
            Json::Array(vec![Json::Bool(true)]),
            Json::Null,
        ]))
    );
}

#[test]
fn objects_are_read_with_their_members() {
    assert_eq!(parse_json(b"{}"), Ok(Json::Object(vec![])));
    assert_eq!(
        parse_json(b"{\"on\": true, \"state\": {\"any_on\": false}}"),
        Ok(Json::Object(vec![
            member("on", Json::Bool(true)),
            member("state", Json::Object(vec![member("any_on", Json::Bool(false))])),
        ]))
    );
}

#[test]
fn members_come_in_the_order_of_their_names() {
    assert_eq!(
        parse_json(b"{\"b\": 1, \"a\": 2, \"10\": 3, \"2\": 4}"),
        Ok(Json::Object(vec![
            member("10", number("3")),
            member("2", number("4")),
            member("a", number("2")),
            member("b", number("1")),
        ]))
    );
}

#[test]
fn of_two_members_with_one_name_the_later_stays() {
    assert_eq!(
        parse_json(b"{\"a\": 1, \"a\": 2}"),
        Ok(Json::Object(vec![member("a", number("2"))]))
    );
}

#[test]
fn what_is_no_json_is_a_syntax_error() {
    assert_eq!(parse_json(b""), Err(DecodeError::Syntax { line: 1, column: 0 }));
    assert_eq!(parse_json(b"{} x"), Err(DecodeError::Syntax { line: 1, column: 4 }));
    assert_eq!(parse_json(b"{\n\"a\": }"), Err(DecodeError::Syntax { line: 2, column: 6 }));
    assert!(matches!(parse_json(b"{'a': 1}"), Err(DecodeError::Syntax { .. })));
    assert!(matches!(parse_json(b"[1,]"), Err(DecodeError::Syntax { .. })));
    assert!(matches!(parse_json(b"\xff"), Err(DecodeError::Syntax { .. })));
    assert!(matches!(parse_json(b"NaN"), Err(DecodeError::Syntax { .. })));
}

#[test]
fn lookup_finds_a_member_by_name() {
    let members = vec![member("name", Json::Text("Desk".to_string())), member("on", Json::Bool(true))];
    assert_eq!(find_member(&members, "on"), Some(&Json::Bool(true)));
    assert_eq!(find_member(&members, "name"), Some(&Json::Text("Desk".to_string())));
    assert_eq!(find_member(&members, "off"), None);
    assert_eq!(find_member(&members, ""), None);
    assert_eq!(find_member(&members, "On"), None);
    assert_eq!(find_member(&Vec::new(), "on"), None);
}

#[test]
fn lookup_takes_the_last_member_of_a_name() {
    let members = vec![
        member("on", Json::Bool(false)),
        member("bri", number("1")),
        member("on", Json::Bool(true)),
    ];
    assert_eq!(find_member(&members, "on"), Some(&Json::Bool(true)));
    assert_eq!(find_member(&members, "bri"), Some(&number("1")));
}
