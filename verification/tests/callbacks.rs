//! Ancestor callbacks around validation, and custom error formatting.
use rustless::app::Application;
use rustless::client::{Client, ClientV};
use rustless::errors::{ErrRespV, ErrorKind, ErrorResponse};
use rustless::framework::{Api, Callback, ErrorFormatter};
use rustless::http::{BodyKind, Method, Request, RespV, Response};
use rustless::media::{Media, MediaV};
use rustless::nesting::Nesting;
use rustless::params::{Params, ParamsV};

pub enum Hook {
    ServerStatus,
    TokenGuard,
}

impl Callback for Hook {
    fn on_call(&self, _client: ClientV, _params: ParamsV) -> (ClientV, Result<(), ErrRespV>) {
        panic!()
    }

    fn call(&self, client: &mut Client, params: &Params) -> Result<(), ErrorResponse> {
        match self {
            Hook::ServerStatus => client.text("Everything is OK".to_string()),
            Hook::TokenGuard => {
                if let Some(token) = params.find("token") {
                    if let Some(value) = token.as_string() {
                        if value == "password1" {
                            return Ok(());
                        }
                    }
                }
                Err(ErrorResponse::new(ErrorKind::Custom {
                    name: "Unauthorized".to_string(),
                    message: "wrong token".to_string(),
                }))
            },
        }
    }
}

pub struct UnauthorizedFormatter;

impl ErrorFormatter for UnauthorizedFormatter {
    fn on_format(&self, _error: rustless::errors::ErrV, _media: MediaV) -> Option<RespV> {
        panic!()
    }

    fn format(&self, error: &ErrorKind, _media: &Media) -> Option<Response> {
        match error {
            ErrorKind::Custom { name, .. } if name == "Unauthorized" => {
                let mut resp = Response::new(401);
                resp.push_string("Please provide correct `token` parameter");
                Some(resp)
            },
            _ => None,
        }
    }
}

fn get(path: &str, query: Option<&str>) -> Request {
    Request {
        method: Method::Get,
        path: path.to_string(),
        query: query.map(|q| q.to_string()),
        accept: None,
        body: None,
        body_kind: BodyKind::NoBody,
    }
}

fn admin_app() -> Application<Hook, UnauthorizedFormatter> {
    let api: Api<Hook, UnauthorizedFormatter> = Api::build(
        |mut api: Api<Hook, UnauthorizedFormatter>| {
            api.prefix("api");
            api.error_formatter(UnauthorizedFormatter);
            api.namespace("admin", |mut admin_ns| {
                admin_ns.params(|mut schema| {
                    schema.req("token");
                    schema
                });
                admin_ns.after_validation(Hook::TokenGuard);
                admin_ns.get("server_status", |mut endpoint| {
                    let present = endpoint.handle(Hook::ServerStatus);
                    (endpoint, present)
                });
                admin_ns
            });
            api
        },
    );
    Application::new(api)
}

#[test]
fn it_invokes_callbacks() {
    let app = admin_app();

    let err_resp = app.call(&get("api/admin/server_status", None)).err().unwrap();
    assert_eq!(err_resp.response.status, 400);

    let err_resp = app
        .call(&get("api/admin/server_status", Some("token=wrong%20token")))
        .err()
        .unwrap();
    assert_eq!(err_resp.response.status, 401);
    assert_eq!(
        err_resp.response.body.as_deref(),
        Some("Please provide correct `token` parameter")
    );

    let response = app
        .call(&get("api/admin/server_status", Some("token=password1")))
        .ok()
        .unwrap();
    assert_eq!(response.status, 200);
    assert_eq!(response.body.as_deref(), Some("Everything is OK"));
}

#[test]
fn scenario_missing_token_names_the_field() {
    let app = admin_app();
    let err_resp = app.call(&get("api/admin/server_status", None)).err().unwrap();
    assert_eq!(err_resp.response.status, 400);
    let body = err_resp.response.body.unwrap();
    assert!(body.contains("token"));
    assert!(body.contains("missing"));
}
