//! Parameter decoding, validation and coercion across endpoints and
//! namespaces.
use rustless::app::Application;
use rustless::client::{Client, ClientV};
use rustless::errors::{ErrRespV, ErrorKind, ErrorResponse};
use rustless::framework::{Api, Callback, ErrorFormatter};
use rustless::http::{BodyKind, Method, Request, RespV, Response};
use rustless::json::JsonValue;
use rustless::media::{Media, MediaV};
use rustless::nesting::Nesting;
use rustless::params::{Params, ParamsV};

pub enum Hook {
    Stub,
    EchoMessageId,
    AssertDecodedUser,
    EchoBody,
}

impl Callback for Hook {
    fn on_call(&self, _client: ClientV, _params: ParamsV) -> (ClientV, Result<(), ErrRespV>) {
        panic!()
    }

    fn call(&self, client: &mut Client, params: &Params) -> Result<(), ErrorResponse> {
        match self {
            Hook::Stub => client.text("Some usefull info".to_string()),
            Hook::EchoMessageId => {
                let text = params.find("message_id").and_then(|v| v.as_string()).unwrap().clone();
                client.text(text)
            },
            Hook::EchoBody => {
                let text = params.find("body").unwrap().to_json_string();
                client.text(text)
            },
            Hook::AssertDecodedUser => {
                assert_eq!(
                    params.find("user_id").and_then(|v| v.as_string()).map(|s| s.as_str()),
                    Some("test")
                );
                assert!(params.find("user_type").is_none());
                client.text("Result".to_string())
            },
        }
    }
}

pub struct NoFmt;

impl ErrorFormatter for NoFmt {
    fn on_format(&self, _error: rustless::errors::ErrV, _media: MediaV) -> Option<RespV> {
        panic!()
    }

    fn format(&self, _error: &ErrorKind, _media: &Media) -> Option<Response> {
        None
    }
}

fn get(path: &str, query: Option<&str>) -> Request {
    Request {
        method: Method::Get,
        path: path.to_string(),
        query: query.map(|q| q.to_string()),
        accept: None,
        body: None,
        body_kind: BodyKind::NoBody,
    }
}

#[test]
fn it_urldecodes_path_params() {
    let api: Api<Hook, NoFmt> = Api::build(|mut api: Api<Hook, NoFmt>| {
        api.prefix("api");
        api.get("users/:user_id/messages/:message_id", |mut endpoint| {
            endpoint.params(|mut schema| {
                schema.req_values("user_id", vec!["100/200".to_string()]);
                schema
            });
            let present = endpoint.handle(Hook::EchoMessageId);
            (endpoint, present)
        });
        api
    });
    let app = Application::new(api);

    let response = app
        .call(&get("api/users/100%2F200/messages/a%2Fb%3F", None))
        .ok()
        .unwrap();
    assert_eq!(response.status, 200);
    assert_eq!(response.body.as_deref(), Some("a/b?"));
}

#[test]
fn it_urldecodes_query_params() {
    let api: Api<Hook, NoFmt> = Api::build(|mut api: Api<Hook, NoFmt>| {
        api.prefix("api");
        api.get("users", |mut endpoint| {
            endpoint.params(|mut schema| {
                schema.req_values("user_id", vec!["100&200".to_string()]);
                schema
            });
            let present = endpoint.handle(Hook::EchoMessageId);
            (endpoint, present)
        });
        api
    });
    let app = Application::new(api);

    let response = app
        .call(&get("api/users", Some("user_id=100%26200&message_id=a%26b%3F")))
        .ok()
        .unwrap();
    assert_eq!(response.status, 200);
    assert_eq!(response.body.as_deref(), Some("a&b?"));
}

#[test]
fn it_validates_endpoint_simple_path_params() {
    let api: Api<Hook, NoFmt> = Api::build(|mut api: Api<Hook, NoFmt>| {
        api.prefix("api");
        api.get("users/:user_id/messages/:message_id", |mut endpoint| {
            let present = endpoint.handle(Hook::Stub);
            (endpoint, present)
        });
        api
    });
    let app = Application::new(api);

    let err_resp = app.call(&get("api/users", None)).err().unwrap();
    assert_eq!(err_resp.response.status, 404);

    let err_resp = app.call(&get("api/users/", None)).err().unwrap();
    assert_eq!(err_resp.response.status, 404);

    let response = app.call(&get("api/users/Skywalker/messages/100", None)).ok().unwrap();
    assert_eq!(response.status, 200);

    let response = app.call(&get("api/users/100/messages/12", None)).ok().unwrap();
    assert_eq!(response.status, 200);
}

#[test]
fn it_validates_typed_endpoint_path_params() {
    let api: Api<Hook, NoFmt> = Api::build(|mut api: Api<Hook, NoFmt>| {
        api.prefix("api");
        api.get("users/:user_id/messages/:message_id", |mut endpoint| {
            endpoint.params(|mut schema| {
                schema.req_u64("user_id");
                schema.req_u64("message_id");
                schema
            });
            let present = endpoint.handle(Hook::Stub);
            (endpoint, present)
        });
        api
    });
    let app = Application::new(api);

    let err_resp = app.call(&get("api/users/Skywalker/messages/100", None)).err().unwrap();
    assert_eq!(err_resp.response.status, 400);

    let err_resp = app.call(&get("api/users/100/messages/Skywalker", None)).err().unwrap();
    assert_eq!(err_resp.response.status, 400);

    let response = app.call(&get("api/users/100/messages/12", None)).ok().unwrap();
    assert_eq!(response.status, 200);
}

#[test]
fn it_validates_query_params() {
    let api: Api<Hook, NoFmt> = Api::build(|mut api: Api<Hook, NoFmt>| {
        api.prefix("api");
        api.get("users/:user_id", |mut endpoint| {
            endpoint.params(|mut schema| {
                schema.req_u64("user_id");
                schema.req_values("profile", vec!["simple".to_string(), "full".to_string()]);
                schema
            });
            let present = endpoint.handle(Hook::Stub);
            (endpoint, present)
        });
        api
    });
    let app = Application::new(api);

    let err_resp = app.call(&get("api/users/100", None)).err().unwrap();
    assert_eq!(err_resp.response.status, 400);

    let err_resp = app.call(&get("api/users/100", Some("profile=1"))).err().unwrap();
    assert_eq!(err_resp.response.status, 400);

    let err_resp = app.call(&get("api/users/100", Some("profile=fulll"))).err().unwrap();
    assert_eq!(err_resp.response.status, 400);

    let response = app.call(&get("api/users/100", Some("profile=full"))).ok().unwrap();
    assert_eq!(response.status, 200);

    let response = app.call(&get("api/users/100", Some("profile=simple"))).ok().unwrap();
    assert_eq!(response.status, 200);
}

#[test]
fn it_validates_common_namespace_params() {
    let api: Api<Hook, NoFmt> = Api::build(|mut api: Api<Hook, NoFmt>| {
        api.prefix("api");
        api.resources("users/:user_id", |mut users| {
            users.params(|mut schema| {
                schema.req_u64("user_id");
                schema.req("ext");
                schema
            });
            users.get("profile/:profile", |mut endpoint| {
                endpoint.params(|mut schema| {
                    schema.req_values(
                        "profile",
                        vec!["simple".to_string(), "full".to_string()],
                    );
                    schema
                });
                let present = endpoint.handle(Hook::Stub);
                (endpoint, present)
            });
            users
        });
        api
    });
    let app = Application::new(api);

    let err_resp = app.call(&get("api/users/100", None)).err().unwrap();
    assert_eq!(err_resp.response.status, 400);

    let err_resp = app.call(&get("api/users/100/profile/full", None)).err().unwrap();
    assert_eq!(err_resp.response.status, 400);

    let response = app
        .call(&get("api/users/100/profile/full", Some("ext=some")))
        .ok()
        .unwrap();
    assert_eq!(response.status, 200);
}

#[test]
fn scenario_validation_error_names_the_field() {
    let api: Api<Hook, NoFmt> = Api::build(|mut api: Api<Hook, NoFmt>| {
        api.get("users/:user_id", |mut endpoint| {
            endpoint.params(|mut schema| {
                schema.req_u64("user_id");
                schema
            });
            let present = endpoint.handle(Hook::Stub);
            (endpoint, present)
        });
        api
    });
    let app = Application::new(api);

    let err_resp = app.call(&get("users/Skywalker", None)).err().unwrap();
    assert_eq!(err_resp.response.status, 400);
    let body = err_resp.response.body.unwrap();
    assert!(body.contains("user_id"));
    match err_resp.error {
        ErrorKind::Validation(reasons) => {
            assert_eq!(reasons.len(), 1);
            assert_eq!(reasons[0].name, "user_id");
            assert_eq!(reasons[0].code, "wrong_type");
        },
        other => panic!("unexpected error kind: {:?}", other),
    }
}

fn json_post(path: &str, body: &str) -> Request {
    Request {
        method: Method::Get,
        path: path.to_string(),
        query: None,
        accept: None,
        body: Some(body.to_string()),
        body_kind: BodyKind::JsonBody,
    }
}

fn decode_app() -> Application<Hook, NoFmt> {
    let api: Api<Hook, NoFmt> = Api::build(|mut api: Api<Hook, NoFmt>| {
        api.get("test", |mut endpoint| {
            endpoint.params(|mut schema| {
                schema.req("user_id");
                schema
            });
            let present = endpoint.handle(Hook::AssertDecodedUser);
            (endpoint, present)
        });
        api
    });
    Application::new(api)
}

#[test]
fn api_params_decode() {
    let app = decode_app();
    let response = app.call(&json_post("test", "{\"user_id\": \"test\"}")).ok().unwrap();
    assert_eq!(response.status, 200);
    assert_eq!(response.body.as_deref(), Some("Result"));
}

#[test]
fn endpoint_params_decode() {
    let app = decode_app();
    let response = app.call(&json_post("test", "{\"user_id\": \"test\"}")).ok().unwrap();
    assert_eq!(response.status, 200);
    assert_eq!(response.body.as_deref(), Some("Result"));
}

#[test]
fn malformed_json_body_is_a_decode_error() {
    let app = decode_app();
    let err_resp = app.call(&json_post("test", "{not json")).err().unwrap();
    assert_eq!(err_resp.response.status, 500);
    match err_resp.error {
        ErrorKind::Body(reason) => assert!(reason.contains("JSON")),
        other => panic!("unexpected error kind: {:?}", other),
    }
}

#[test]
fn non_object_json_body_lands_under_the_body_name() {
    let api: Api<Hook, NoFmt> = Api::build(|mut api: Api<Hook, NoFmt>| {
        api.get("echo", |mut endpoint| {
            let present = endpoint.handle(Hook::EchoBody);
            (endpoint, present)
        });
        api
    });
    let app = Application::new(api);
    let response = app.call(&json_post("echo", "[1,2]")).ok().unwrap();
    assert_eq!(response.body.as_deref(), Some("[1,2]"));
}

#[test]
fn optional_rules_only_bind_present_values() {
    let mut schema = rustless::schema::Schema::new();
    schema.opt_u64("age");
    schema.opt_values("mode", vec!["fast".to_string(), "slow".to_string()]);

    let mut absent = Params::new();
    assert!(schema.validate(&mut absent).is_ok());

    let mut wrong = Params::new();
    wrong.insert("age".to_string(), JsonValue::Str("old".to_string()));
    let reasons = schema.validate(&mut wrong).err().unwrap();
    assert_eq!(reasons.len(), 1);
    assert_eq!(reasons[0].name, "age");
    assert_eq!(reasons[0].code, "wrong_type");

    let mut outside = Params::new();
    outside.insert("mode".to_string(), JsonValue::Str("sideways".to_string()));
    let reasons = schema.validate(&mut outside).err().unwrap();
    assert_eq!(reasons[0].code, "not_allowed");
}

#[test]
fn coercion_rewrites_the_bag_in_place() {
    let mut params = Params::new();
    params.insert("user_id".to_string(), JsonValue::Str("1000".to_string()));
    let mut schema = rustless::schema::Schema::new();
    schema.req_u64("user_id");
    assert!(schema.validate(&mut params).is_ok());
    match params.find("user_id") {
        Some(JsonValue::U64(n)) => assert_eq!(*n, 1000),
        other => panic!("not coerced: {:?}", other),
    }
}
