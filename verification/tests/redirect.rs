//! Redirect helpers on the client handle.
use rustless::app::Application;
use rustless::client::{Client, ClientV};
use rustless::errors::{ErrRespV, ErrorKind, ErrorResponse};
use rustless::framework::{Api, Callback, ErrorFormatter};
use rustless::http::{BodyKind, Method, Request, RespV, Response};
use rustless::media::{Media, MediaV};
use rustless::nesting::Nesting;
use rustless::params::{Params, ParamsV};

pub enum Hook {
    RedirectTo,
    PermanentRedirectTo,
}

impl Callback for Hook {
    fn on_call(&self, _client: ClientV, _params: ParamsV) -> (ClientV, Result<(), ErrRespV>) {
        panic!()
    }

    fn call(&self, client: &mut Client, params: &Params) -> Result<(), ErrorResponse> {
        let href = params.find("href").and_then(|v| v.as_string()).unwrap().clone();
        match self {
            Hook::RedirectTo => client.redirect(href.as_str()),
            Hook::PermanentRedirectTo => client.permanent_redirect(href.as_str()),
        }
    }
}

pub struct NoFmt;

impl ErrorFormatter for NoFmt {
    fn on_format(&self, _error: rustless::errors::ErrV, _media: MediaV) -> Option<RespV> {
        panic!()
    }

    fn format(&self, _error: &ErrorKind, _media: &Media) -> Option<Response> {
        None
    }
}

fn post(path: &str) -> Request {
    Request {
        method: Method::Post,
        path: path.to_string(),
        query: None,
        accept: None,
        body: None,
        body_kind: BodyKind::NoBody,
    }
}

fn location(resp: &Response) -> Option<&str> {
    resp.headers.iter().find(|(n, _)| n == "Location").map(|(_, v)| v.as_str())
}

#[test]
fn it_allows_redirect() {
    let api: Api<Hook, NoFmt> = Api::build(|mut api: Api<Hook, NoFmt>| {
        api.prefix("api");
        api.post("redirect_me/:href", |mut endpoint| {
            let present = endpoint.handle(Hook::RedirectTo);
            (endpoint, present)
        });
        api
    });
    let app = Application::new(api);

    let response = app.call(&post("api/redirect_me/google.com")).ok().unwrap();
    assert_eq!(response.status, 302);
    assert_eq!(location(&response), Some("google.com"));
}

#[test]
fn it_allows_permanent_redirect() {
    let api: Api<Hook, NoFmt> = Api::build(|mut api: Api<Hook, NoFmt>| {
        api.prefix("api");
        api.post("redirect_me/:href", |mut endpoint| {
            let present = endpoint.handle(Hook::PermanentRedirectTo);
            (endpoint, present)
        });
        api
    });
    let app = Application::new(api);

    let response = app.call(&post("api/redirect_me/google.com")).ok().unwrap();
    assert_eq!(response.status, 301);
    assert_eq!(location(&response), Some("google.com"));
}
