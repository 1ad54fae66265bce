//! Pattern compilation and matching, and path normalization.
use rustless::path::{encode_path_string, normalize, Path};

fn capture<'a>(m: &'a rustless::path::PathMatch, name: &str) -> Option<&'a str> {
    m.captures.iter().find(|(n, _)| n == name).map(|(_, v)| v.as_str())
}

#[test]
fn it_normalize() {
    assert_eq!(normalize("/test"), "test");
    assert_eq!(normalize("test"), "test");
}

#[test]
fn path_parse_and_match() {
    let path = Path::parse(":user_id/messages/:message_id", true).unwrap();
    assert!(match path.is_match("1920/messages/100500") {
        Some(m) => {
            capture(&m, "user_id").unwrap() == "1920" && capture(&m, "message_id").unwrap()
                == "100500"
        },
        None => false,
    });
    assert!(match path.is_match("1920/messages/not_match/100500") {
        Some(_) => false,
        None => true,
    });
}

#[test]
fn route_parse_and_match() {
    let path = Path::parse(":user_id/messages/:message_id", true).unwrap();
    assert!(match path.is_match("1920/messages/100500") {
        Some(m) => {
            capture(&m, "user_id").unwrap() == "1920" && capture(&m, "message_id").unwrap()
                == "100500"
        },
        None => false,
    });
    assert!(match path.is_match("1920/messages/not_match/100500") {
        Some(_) => false,
        None => true,
    });
}

#[test]
fn parse_and_match_root() {
    let path = Path::parse("", true).unwrap();
    assert!(match path.is_match("") {
        Some(m) => m.consumed == 0,
        None => false,
    });
    assert!(path.is_match("something").is_none());
}

#[test]
fn parse_and_match_single_val() {
    let path = Path::parse(":id", true).unwrap();
    assert!(match path.is_match("550e8400-e29b-41d4-a716-446655440000") {
        Some(m) => capture(&m, "id").unwrap() == "550e8400-e29b-41d4-a716-446655440000",
        None => false,
    });
}

#[test]
fn scenario_path_round_trip() {
    let path = Path::parse(":user_id/messages/:message_id", true).unwrap();
    let m = path.is_match("100/messages/55").unwrap();
    assert_eq!(capture(&m, "user_id").unwrap(), "100");
    assert_eq!(capture(&m, "message_id").unwrap(), "55");
    assert!(path.is_match("100/messages/not_match/100500").is_none());
}

#[test]
fn namespace_pattern_reports_consumed_prefix() {
    let path = Path::parse("users/:id", false).unwrap();
    let m = path.is_match("users/7/profile").unwrap();
    assert_eq!(m.consumed, 7);
    assert_eq!(capture(&m, "id").unwrap(), "7");
}

#[test]
fn pattern_params_are_collected_in_order() {
    let path = Path::parse(":user_id/messages/:message_id", true).unwrap();
    assert_eq!(path.params.len(), 2);
    assert_eq!(path.params[0], "user_id");
    assert_eq!(path.params[1], "message_id");
}

#[test]
fn pattern_encodes_placeholders_in_braces() {
    let path = Path::parse(":user_id/messages/:message_id", true).unwrap();
    assert_eq!(encode_path_string(&path), "{user_id}/messages/{message_id}");
}

#[test]
fn placeholder_is_greedy_with_backtracking() {
    let path = Path::parse(":a-b", true).unwrap();
    let m = path.is_match("x-y-b").unwrap();
    assert_eq!(capture(&m, "a").unwrap(), "x-y");
}
