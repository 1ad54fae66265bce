//! JSON responses through the client handle: content type and body shape.
use rustless::app::Application;
use rustless::client::{Client, ClientV};
use rustless::errors::{ErrRespV, ErrorKind, ErrorResponse};
use rustless::framework::{Api, Callback, ErrorFormatter};
use rustless::http::{BodyKind, Method, Request, RespV, Response};
use rustless::json::JsonValue;
use rustless::jsonparse::parse_json;
use rustless::media::{Media, MediaV};
use rustless::nesting::Nesting;
use rustless::params::{Params, ParamsV};

pub enum Hook {
    Status,
}

impl Callback for Hook {
    fn on_call(&self, _client: ClientV, _params: ParamsV) -> (ClientV, Result<(), ErrRespV>) {
        panic!()
    }

    fn call(&self, client: &mut Client, params: &Params) -> Result<(), ErrorResponse> {
        let echoed = parse_json(&params.to_json_string()).unwrap();
        let value = JsonValue::Object(vec![
            ("uptime".to_string(), JsonValue::Str("Ok".to_string())),
            ("echo_params".to_string(), echoed),
        ]);
        client.json(&value)
    }
}

pub struct NoFmt;

impl ErrorFormatter for NoFmt {
    fn on_format(&self, _error: rustless::errors::ErrV, _media: MediaV) -> Option<RespV> {
        panic!()
    }

    fn format(&self, _error: &ErrorKind, _media: &Media) -> Option<Response> {
        None
    }
}

#[test]
fn it_serializes_json_properly() {
    let api: Api<Hook, NoFmt> = Api::build(|mut api: Api<Hook, NoFmt>| {
        api.prefix("api");
        api.get("status", |mut endpoint| {
            let present = endpoint.handle(Hook::Status);
            (endpoint, present)
        });
        api
    });
    let app = Application::new(api);

    let request = Request {
        method: Method::Get,
        path: "api/status".to_string(),
        query: Some("tag=abc".to_string()),
        accept: None,
        body: None,
        body_kind: BodyKind::NoBody,
    };
    let response = app.call(&request).ok().unwrap();
    assert_eq!(response.status, 200);

    let content_type = response
        .headers
        .iter()
        .find(|(name, _)| name == "Content-Type")
        .map(|(_, value)| value.as_str());
    assert_eq!(content_type, Some("application/json"));

    let raw_body = response.body.unwrap();
    match parse_json(&raw_body).unwrap() {
        JsonValue::Object(entries) => {
            assert!(entries.iter().any(|(name, _)| name == "uptime"));
            assert!(entries.iter().any(|(name, _)| name == "echo_params"));
        },
        other => panic!("expected object, got {:?}", other),
    }
}
