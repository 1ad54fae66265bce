//! Prefix stripping, nested and together with path versioning.
use rustless::app::Application;
use rustless::client::{Client, ClientV};
use rustless::errors::{ErrRespV, ErrorKind, ErrorResponse};
use rustless::framework::{Api, ApiHandler, Callback, ErrorFormatter, Versioning};
use rustless::http::{BodyKind, Method, Request, RespV, Response};
use rustless::media::{Media, MediaV};
use rustless::nesting::Nesting;
use rustless::params::{Params, ParamsV};

pub enum Hook {
    Stub,
}

impl Callback for Hook {
    fn on_call(&self, _client: ClientV, _params: ParamsV) -> (ClientV, Result<(), ErrRespV>) {
        panic!()
    }

    fn call(&self, client: &mut Client, _params: &Params) -> Result<(), ErrorResponse> {
        client.text("Some usefull info".to_string())
    }
}

pub struct NoFmt;

impl ErrorFormatter for NoFmt {
    fn on_format(&self, _error: rustless::errors::ErrV, _media: MediaV) -> Option<RespV> {
        panic!()
    }

    fn format(&self, _error: &ErrorKind, _media: &Media) -> Option<Response> {
        None
    }
}

fn get(path: &str) -> Request {
    Request {
        method: Method::Get,
        path: path.to_string(),
        query: None,
        accept: None,
        body: None,
        body_kind: BodyKind::NoBody,
    }
}

#[test]
fn it_allows_prefix() {
    let api: Api<Hook, NoFmt> = Api::build(|mut api: Api<Hook, NoFmt>| {
        api.prefix("api");
        api.get("info", |mut endpoint| {
            let present = endpoint.handle(Hook::Stub);
            (endpoint, present)
        });
        api
    });
    let app = Application::new(api);

    let err_resp = app.call(&get("info")).err().unwrap();
    assert_eq!(err_resp.response.status, 404);

    let response = app.call(&get("api/info")).ok().unwrap();
    assert_eq!(response.status, 200);
}

#[test]
fn it_allows_nested_prefix() {
    let api: Api<Hook, NoFmt> = Api::build(|mut api: Api<Hook, NoFmt>| {
        api.prefix("api");
        api.mount(ApiHandler::Api(Api::build(|mut nested_api: Api<Hook, NoFmt>| {
            nested_api.prefix("nested_api");
            nested_api.get("info", |mut endpoint| {
                let present = endpoint.handle(Hook::Stub);
                (endpoint, present)
            });
            nested_api
        })));
        api
    });
    let app = Application::new(api);

    let err_resp = app.call(&get("info")).err().unwrap();
    assert_eq!(err_resp.response.status, 404);

    let err_resp = app.call(&get("api/info")).err().unwrap();
    assert_eq!(err_resp.response.status, 404);

    let response = app.call(&get("api/nested_api/info")).ok().unwrap();
    assert_eq!(response.status, 200);
}

#[test]
fn it_allows_prefix_with_path_versioning() {
    let api: Api<Hook, NoFmt> = Api::build(|mut api: Api<Hook, NoFmt>| {
        api.prefix("api");
        api.version("v1", Versioning::Path);
        api.mount(ApiHandler::Api(Api::build(|mut nested_api: Api<Hook, NoFmt>| {
            nested_api.prefix("nested_api");
            nested_api.get("info", |mut endpoint| {
                let present = endpoint.handle(Hook::Stub);
                (endpoint, present)
            });
            nested_api
        })));
        api
    });
    let app = Application::new(api);

    let err_resp = app.call(&get("info")).err().unwrap();
    assert_eq!(err_resp.response.status, 404);

    let err_resp = app.call(&get("api/info")).err().unwrap();
    assert_eq!(err_resp.response.status, 404);

    let err_resp = app.call(&get("api/v1/info")).err().unwrap();
    assert_eq!(err_resp.response.status, 404);

    let response = app.call(&get("api/v1/nested_api/info")).ok().unwrap();
    assert_eq!(response.status, 200);
}
