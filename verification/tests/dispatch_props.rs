//! Dispatch-order and repeatability checks on whole applications.
use rustless::app::Application;
use rustless::client::{Client, ClientV};
use rustless::errors::{ErrRespV, ErrorKind, ErrorResponse};
use rustless::framework::{Api, Callback, ErrorFormatter};
use rustless::http::{BodyKind, Method, Request, RespV, Response};
use rustless::media::{Media, MediaV};
use rustless::nesting::Nesting;
use rustless::params::{Params, ParamsV};

pub enum Hook {
    First,
    Second,
}

impl Callback for Hook {
    fn on_call(&self, _client: ClientV, _params: ParamsV) -> (ClientV, Result<(), ErrRespV>) {
        panic!()
    }

    fn call(&self, client: &mut Client, _params: &Params) -> Result<(), ErrorResponse> {
        match self {
            Hook::First => client.text("first".to_string()),
            Hook::Second => client.text("second".to_string()),
        }
    }
}

pub struct NoFmt;

impl ErrorFormatter for NoFmt {
    fn on_format(&self, _error: rustless::errors::ErrV, _media: MediaV) -> Option<RespV> {
        panic!()
    }

    fn format(&self, _error: &ErrorKind, _media: &Media) -> Option<Response> {
        None
    }
}

fn get(path: &str) -> Request {
    Request {
        method: Method::Get,
        path: path.to_string(),
        query: None,
        accept: None,
        body: None,
        body_kind: BodyKind::NoBody,
    }
}

#[test]
fn scenario_sibling_ordering() {
    let api: Api<Hook, NoFmt> = Api::build(|mut api: Api<Hook, NoFmt>| {
        api.get("only_first", |mut endpoint| {
            let present = endpoint.handle(Hook::First);
            (endpoint, present)
        });
        api.get("target", |mut endpoint| {
            let present = endpoint.handle(Hook::Second);
            (endpoint, present)
        });
        api
    });
    let app = Application::new(api);

    let response = app.call(&get("target")).ok().unwrap();
    assert_eq!(response.status, 200);
    assert_eq!(response.body.as_deref(), Some("second"));
}

#[test]
fn scenario_idempotent_repeat() {
    let api: Api<Hook, NoFmt> = Api::build(|mut api: Api<Hook, NoFmt>| {
        api.get("info", |mut endpoint| {
            let present = endpoint.handle(Hook::First);
            (endpoint, present)
        });
        api
    });
    let app = Application::new(api);

    let first = app.call(&get("info")).ok().unwrap();
    let second = app.call(&get("info")).ok().unwrap();
    assert_eq!(first.status, second.status);
    assert_eq!(first.body, second.body);

    let miss_one = app.call(&get("missing")).err().unwrap();
    let miss_two = app.call(&get("missing")).err().unwrap();
    assert_eq!(miss_one.response.status, miss_two.response.status);
    assert_eq!(miss_one.response.body, miss_two.response.body);
}

#[test]
fn method_mismatch_backtracks_as_not_match() {
    let api: Api<Hook, NoFmt> = Api::build(|mut api: Api<Hook, NoFmt>| {
        api.post("info", |mut endpoint| {
            let present = endpoint.handle(Hook::First);
            (endpoint, present)
        });
        api.get("info", |mut endpoint| {
            let present = endpoint.handle(Hook::Second);
            (endpoint, present)
        });
        api
    });
    let app = Application::new(api);

    let response = app.call(&get("info")).ok().unwrap();
    assert_eq!(response.body.as_deref(), Some("second"));
}
