//! The serializer, the JSON reader, percent-decoding, the query parser
//! and number parsing, on exact values.
use rustless::codec::percent_decode;
use rustless::json::JsonValue;
use rustless::jsonparse::parse_json;
use rustless::params::Params;
use rustless::query::parse_query;
use rustless::schema::parse_u64;

#[test]
fn json_serializer_exact_output() {
    let value = JsonValue::Object(vec![
        ("name".to_string(), JsonValue::Str("An\"kin".to_string())),
        ("age".to_string(), JsonValue::U64(42)),
        ("debt".to_string(), JsonValue::I64(-7)),
        (
            "tags".to_string(),
            JsonValue::Array(vec![
                JsonValue::Bool(true),
                JsonValue::Null,
                JsonValue::Str("x\ny".to_string()),
            ]),
        ),
    ]);
    assert_eq!(
        value.to_json_string(),
        "{\"name\":\"An\\\"kin\",\"age\":42,\"debt\":-7,\"tags\":[true,null,\"x\\ny\"]}"
    );
}

#[test]
fn json_parser_reads_structures() {
    let v = parse_json(" {\"a\": [1, -2, \"x\"], \"b\": {\"c\": null, \"d\": true}} ").unwrap();
    match v {
        JsonValue::Object(entries) => {
            assert_eq!(entries.len(), 2);
            assert_eq!(entries[0].0, "a");
            match &entries[0].1 {
                JsonValue::Array(items) => {
                    assert_eq!(items.len(), 3);
                    assert_eq!(items[0], JsonValue::U64(1));
                    assert_eq!(items[1], JsonValue::I64(-2));
                    assert_eq!(items[2], JsonValue::Str("x".to_string()));
                },
                other => panic!("expected array, got {:?}", other),
            }
        },
        other => panic!("expected object, got {:?}", other),
    }
}

#[test]
fn json_parser_handles_escapes() {
    let v = parse_json("\"a\\n\\t\\\\\\\"\\u0041\\uD83D\\uDE00\"").unwrap();
    assert_eq!(v, JsonValue::Str("a\n\t\\\"A\u{1F600}".to_string()));
}

#[test]
fn json_parser_rejects_malformed_input() {
    assert!(parse_json("{").is_none());
    assert!(parse_json("{\"a\": }").is_none());
    assert!(parse_json("1.5").is_none());
    assert!(parse_json("1e3").is_none());
    assert!(parse_json("tru").is_none());
    assert!(parse_json("\"unterminated").is_none());
    assert!(parse_json("\"lone \\uD800 surrogate\"").is_none());
    assert!(parse_json("[1,]").is_none());
    assert!(parse_json("{} {}").is_none());
}

#[test]
fn json_parser_round_trips_through_serializer() {
    let text = "{\"a\":[1,-2,\"x\"],\"b\":{\"c\":null,\"d\":true}}";
    let v = parse_json(text).unwrap();
    assert_eq!(v.to_json_string(), text);
}

#[test]
fn json_parser_keeps_last_value_of_repeated_key() {
    let v = parse_json("{\"a\": 1, \"a\": 2}").unwrap();
    assert_eq!(v, JsonValue::Object(vec![("a".to_string(), JsonValue::U64(2))]));
}

#[test]
fn percent_decoding_reaches_reserved_characters() {
    assert_eq!(percent_decode("100%2F200"), "100/200");
    assert_eq!(percent_decode("a%2Fb%3F"), "a/b?");
    assert_eq!(percent_decode("plain"), "plain");
    assert_eq!(percent_decode("%D0%9F"), "\u{41F}");
    assert_eq!(percent_decode("%F0%9F%98%80"), "\u{1F600}");
    assert_eq!(percent_decode("%zz"), "%zz");
    assert_eq!(percent_decode("%FF"), "\u{FFFD}");
}

#[test]
fn query_parser_decodes_pairs_in_order() {
    let pairs = parse_query("a=1&b=x%20y&c&&d=");
    assert_eq!(
        pairs,
        vec![
            ("a".to_string(), "1".to_string()),
            ("b".to_string(), "x y".to_string()),
            ("c".to_string(), "".to_string()),
            ("d".to_string(), "".to_string()),
        ]
    );
}

#[test]
fn number_parsing_guards_the_limits() {
    assert_eq!(parse_u64("0"), Some(0));
    assert_eq!(parse_u64("1000"), Some(1000));
    assert_eq!(parse_u64("18446744073709551615"), Some(u64::MAX));
    assert_eq!(parse_u64("18446744073709551616"), None);
    assert_eq!(parse_u64(""), None);
    assert_eq!(parse_u64("12a"), None);
    assert_eq!(parse_u64("-1"), None);

    assert_eq!(
        parse_json("-9223372036854775808"),
        Some(JsonValue::I64(i64::MIN))
    );
    assert_eq!(parse_json("-9223372036854775809"), None);
    assert_eq!(
        parse_json("18446744073709551615"),
        Some(JsonValue::U64(u64::MAX))
    );
}

#[test]
fn params_bag_is_first_writer_wins_on_merge() {
    let mut params = Params::new();
    params.insert("a".to_string(), JsonValue::Str("path".to_string()));
    assert!(params.contains_key("a"));
    assert_eq!(params.len(), 1);
    params.insert("a".to_string(), JsonValue::Str("again".to_string()));
    assert_eq!(params.len(), 1);
    assert_eq!(
        params.find("a").and_then(|v| v.as_string()).map(|s| s.as_str()),
        Some("again")
    );
    assert_eq!(
        params.to_json_string(),
        "{\"a\":\"again\"}"
    );
}
