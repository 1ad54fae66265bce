//! Version resolution across the three strategies, nested and mixed.
use rustless::app::Application;
use rustless::client::{Client, ClientV};
use rustless::errors::{ErrRespV, ErrorKind, ErrorResponse};
use rustless::framework::{Api, ApiHandler, Callback, ErrorFormatter, Versioning};
use rustless::http::{BodyKind, Method, Request, RespV, Response};
use rustless::media::{Media, MediaV};
use rustless::nesting::Nesting;
use rustless::params::{Params, ParamsV};

pub enum Hook {
    Stub,
    NestedInfo,
}

impl Callback for Hook {
    fn on_call(&self, _client: ClientV, _params: ParamsV) -> (ClientV, Result<(), ErrRespV>) {
        panic!()
    }

    fn call(&self, client: &mut Client, _params: &Params) -> Result<(), ErrorResponse> {
        match self {
            Hook::Stub => client.text("Some usefull info".to_string()),
            Hook::NestedInfo => client.text("Some usefull info".to_string()),
        }
    }
}

pub struct NoFmt;

impl ErrorFormatter for NoFmt {
    fn on_format(&self, _error: rustless::errors::ErrV, _media: MediaV) -> Option<RespV> {
        panic!()
    }

    fn format(&self, _error: &ErrorKind, _media: &Media) -> Option<Response> {
        None
    }
}

fn get(path: &str, query: Option<&str>, accept: Option<&str>) -> Request {
    Request {
        method: Method::Get,
        path: path.to_string(),
        query: query.map(|q| q.to_string()),
        accept: accept.map(|a| vec![a.to_string()]),
        body: None,
        body_kind: BodyKind::NoBody,
    }
}

fn info_api(version: Option<(&str, Versioning)>) -> Application<Hook, NoFmt> {
    let api: Api<Hook, NoFmt> = Api::build(|mut api: Api<Hook, NoFmt>| {
        if let Some((v, strategy)) = version {
            api.version(v, strategy);
        }
        api.get("info", |mut endpoint| {
            let present = endpoint.handle(Hook::Stub);
            (endpoint, present)
        });
        api
    });
    Application::new(api)
}

#[test]
fn it_pass_without_versioning() {
    let app = info_api(None);
    let response = app.call(&get("info", None, None)).ok().unwrap();
    assert_eq!(response.status, 200);
}

#[test]
fn it_pass_path_versioning() {
    let app = info_api(Some(("v1", Versioning::Path)));

    let err_resp = app.call(&get("info", None, None)).err().unwrap();
    assert_eq!(err_resp.response.status, 404);

    let response = app.call(&get("v1/info", None, None)).ok().unwrap();
    assert_eq!(response.status, 200);
}

#[test]
fn it_pass_param_versioning() {
    let app = info_api(Some(("v1", Versioning::Param("v".to_string()))));

    let err_resp = app.call(&get("info", None, None)).err().unwrap();
    assert_eq!(err_resp.response.status, 404);

    let response = app.call(&get("info", Some("v=v1"), None)).ok().unwrap();
    assert_eq!(response.status, 200);
}

#[test]
fn it_pass_accept_header_versioning() {
    let app = info_api(Some(("v1", Versioning::AcceptHeader("infoapi".to_string()))));

    let err_resp = app.call(&get("info", None, None)).err().unwrap();
    assert_eq!(err_resp.response.status, 404);

    let response = app
        .call(&get("info", None, Some("application/vnd.infoapi.v1+json")))
        .ok()
        .unwrap();
    assert_eq!(response.status, 200);
}

#[test]
fn it_pass_nesting_param_versioning() {
    let api: Api<Hook, NoFmt> = Api::build(|mut api: Api<Hook, NoFmt>| {
        api.version("v1", Versioning::Param("v".to_string()));
        api.get("info", |mut endpoint| {
            let present = endpoint.handle(Hook::Stub);
            (endpoint, present)
        });
        api.mount(ApiHandler::Api(Api::build(|mut nested_api: Api<Hook, NoFmt>| {
            nested_api.version("v2", Versioning::Param("nested_ver".to_string()));
            nested_api.get("nested_info", |mut endpoint| {
                let present = endpoint.handle(Hook::NestedInfo);
                (endpoint, present)
            });
            nested_api
        })));
        api
    });
    let app = Application::new(api);

    let response = app.call(&get("info", Some("v=v1"), None)).ok().unwrap();
    assert_eq!(response.status, 200);

    let err_resp = app.call(&get("nested_info", Some("v=v1"), None)).err().unwrap();
    assert_eq!(err_resp.response.status, 404);

    let response = app
        .call(&get("nested_info", Some("v=v1&nested_ver=v2"), None))
        .ok()
        .unwrap();
    assert_eq!(response.status, 200);
}

#[test]
fn it_pass_nesting_path_versioning() {
    let api: Api<Hook, NoFmt> = Api::build(|mut api: Api<Hook, NoFmt>| {
        api.version("v1", Versioning::Path);
        api.get("info", |mut endpoint| {
            let present = endpoint.handle(Hook::Stub);
            (endpoint, present)
        });
        api.mount(ApiHandler::Api(Api::build(|mut nested_api: Api<Hook, NoFmt>| {
            nested_api.version("v2", Versioning::Path);
            nested_api.get("nested_info", |mut endpoint| {
                let present = endpoint.handle(Hook::NestedInfo);
                (endpoint, present)
            });
            nested_api
        })));
        api
    });
    let app = Application::new(api);

    let response = app.call(&get("v1/info", None, None)).ok().unwrap();
    assert_eq!(response.status, 200);

    let err_resp = app.call(&get("v1/nested_info", None, None)).err().unwrap();
    assert_eq!(err_resp.response.status, 404);

    let response = app.call(&get("v1/v2/nested_info", None, None)).ok().unwrap();
    assert_eq!(response.status, 200);
}

#[test]
fn it_pass_nesting_crazy_mixed_versioning_never_do_this() {
    let api: Api<Hook, NoFmt> = Api::build(|mut api: Api<Hook, NoFmt>| {
        api.version("v1", Versioning::AcceptHeader("infoapi".to_string()));
        api.get("info", |mut endpoint| {
            let present = endpoint.handle(Hook::Stub);
            (endpoint, present)
        });
        api.mount(ApiHandler::Api(Api::build(|mut nested_api: Api<Hook, NoFmt>| {
            nested_api.version("v2", Versioning::Path);
            nested_api.mount(ApiHandler::Api(Api::build(
                |mut nested_nested_api: Api<Hook, NoFmt>| {
                    nested_nested_api.version("v3", Versioning::Param("ver".to_string()));
                    nested_nested_api.get("info", |mut endpoint| {
                        let present = endpoint.handle(Hook::Stub);
                        (endpoint, present)
                    });
                    nested_nested_api
                },
            )));
            nested_api
        })));
        api
    });
    let app = Application::new(api);

    let response = app
        .call(&get("v2/info", Some("ver=v3"), Some("application/vnd.infoapi.v1+json")))
        .ok()
        .unwrap();
    assert_eq!(response.status, 200);

    let err_resp = app
        .call(&get("v2/nested_nested_info", None, Some("application/vnd.infoapi.v1+json")))
        .err()
        .unwrap();
    assert_eq!(err_resp.response.status, 404);
}
