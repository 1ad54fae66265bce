//! The client handle's status, header and body helpers, and the shapes
//! the default formatter produces for each media.
use rustless::app::{create_default_error_formatter, default_format};
use rustless::client::Client;
use rustless::errors::{ErrorKind, ValidationReason};
use rustless::framework::ErrorFormatter;
use rustless::json::JsonValue;
use rustless::media::Media;

#[test]
fn client_status_helpers_set_the_codes() {
    let mut client = Client::new(Media::default());
    assert_eq!(client.status(), 200);
    client.unauthorized();
    assert_eq!(client.status(), 401);
    client.forbidden();
    assert_eq!(client.status(), 403);
    client.not_found();
    assert_eq!(client.status(), 404);
    client.internal_server_error();
    assert_eq!(client.status(), 500);
    client.not_implemented();
    assert_eq!(client.status(), 501);
    client.set_status(204);
    assert_eq!(client.status(), 204);
}

#[test]
fn client_builds_json_and_text_bodies() {
    let mut client = Client::new(Media::default());
    client.json(&JsonValue::Bool(true)).unwrap();
    let mut client2 = Client::new(Media::default());
    client2.text("plain".to_string()).unwrap();
    client2.empty().unwrap();
    let resp = client.move_response();
    assert_eq!(resp.body.as_deref(), Some("true"));
    assert_eq!(
        resp.headers,
        vec![("Content-Type".to_string(), "application/json".to_string())]
    );
    let resp2 = client2.move_response();
    assert_eq!(resp2.body.as_deref(), Some("plain"));
    assert!(resp2.headers.is_empty());
}

#[test]
fn client_error_hands_the_kind_back() {
    let client = Client::new(Media::default());
    let err = client.error(ErrorKind::NotFound).err().unwrap();
    assert_eq!(err.error, ErrorKind::NotFound);
    assert!(err.response.is_none());
}

#[test]
fn client_headers_replace_in_place() {
    let mut client = Client::new(Media::default());
    client.set_content_type("text/csv".to_string());
    client.set_header("X-Trace".to_string(), "one".to_string());
    client.set_header("X-Trace".to_string(), "two".to_string());
    let resp = client.move_response();
    assert_eq!(
        resp.headers,
        vec![
            ("Content-Type".to_string(), "text/csv".to_string()),
            ("X-Trace".to_string(), "two".to_string()),
        ]
    );
}

#[test]
fn default_formatter_shapes_follow_the_media() {
    let reasons = vec![ValidationReason {
        name: "user_id".to_string(),
        code: "wrong_type".to_string(),
    }];
    let error = ErrorKind::Validation(reasons);

    let text_resp = default_format(&error, &Media::default()).unwrap();
    assert_eq!(text_resp.status, 400);
    assert_eq!(text_resp.body.as_deref(), Some("    user_id: wrong_type\n"));

    let json_media = Media::from_mime("application/json");
    let formatter = create_default_error_formatter();
    let json_resp = formatter.format(&error, &json_media).unwrap();
    assert_eq!(json_resp.status, 400);
    assert_eq!(
        json_resp.body.as_deref(),
        Some("[{\"name\":\"user_id\",\"code\":\"wrong_type\"}]")
    );

    assert!(default_format(&ErrorKind::NotFound, &Media::default()).is_none());
}
