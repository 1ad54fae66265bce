//! Namespace grouping, nesting, and prefix consumption.
use rustless::app::Application;
use rustless::client::{Client, ClientV};
use rustless::errors::{ErrRespV, ErrorKind, ErrorResponse};
use rustless::framework::{Api, Callback, ErrorFormatter};
use rustless::http::{BodyKind, Method, Request, RespV, Response};
use rustless::media::{Media, MediaV};
use rustless::nesting::Nesting;
use rustless::params::{Params, ParamsV};

pub enum Hook {
    Stub,
    EchoId,
}

impl Callback for Hook {
    fn on_call(&self, _client: ClientV, _params: ParamsV) -> (ClientV, Result<(), ErrRespV>) {
        panic!()
    }

    fn call(&self, client: &mut Client, params: &Params) -> Result<(), ErrorResponse> {
        match self {
            Hook::Stub => client.text("Some usefull info".to_string()),
            Hook::EchoId => {
                let id = params.find("id").and_then(|v| v.as_string()).unwrap().clone();
                client.text(id)
            },
        }
    }
}

pub struct NoFmt;

impl ErrorFormatter for NoFmt {
    fn on_format(&self, _error: rustless::errors::ErrV, _media: MediaV) -> Option<RespV> {
        panic!()
    }

    fn format(&self, _error: &ErrorKind, _media: &Media) -> Option<Response> {
        None
    }
}

fn get(path: &str) -> Request {
    Request {
        method: Method::Get,
        path: path.to_string(),
        query: None,
        accept: None,
        body: None,
        body_kind: BodyKind::NoBody,
    }
}

#[test]
fn it_allows_to_create_namespace() {
    let api: Api<Hook, NoFmt> = Api::build(|mut api: Api<Hook, NoFmt>| {
        api.prefix("api");
        api.namespace("ns1", |mut ns| {
            ns.get("info", |mut endpoint| {
                let present = endpoint.handle(Hook::Stub);
                (endpoint, present)
            });
            ns
        });
        api.group("ns2", |mut ns| {
            ns.get("info", |mut endpoint| {
                let present = endpoint.handle(Hook::Stub);
                (endpoint, present)
            });
            ns
        });
        api.resource("ns3", |mut ns| {
            ns.get("info", |mut endpoint| {
                let present = endpoint.handle(Hook::Stub);
                (endpoint, present)
            });
            ns
        });
        api.resources("ns4", |mut ns| {
            ns.get("info", |mut endpoint| {
                let present = endpoint.handle(Hook::Stub);
                (endpoint, present)
            });
            ns
        });
        api.segment("ns5", |mut ns| {
            ns.get("info", |mut endpoint| {
                let present = endpoint.handle(Hook::Stub);
                (endpoint, present)
            });
            ns
        });
        api
    });
    let app = Application::new(api);

    for ns in ["ns1", "ns2", "ns3", "ns4", "ns5"] {
        let response = app.call(&get(&format!("api/{}/info", ns))).ok().unwrap();
        assert_eq!(response.status, 200);
    }
}

#[test]
fn it_allows_nested_namespaces() {
    let api: Api<Hook, NoFmt> = Api::build(|mut api: Api<Hook, NoFmt>| {
        api.prefix("api");
        api.namespace("ns1", |mut ns1| {
            ns1.group("ns2", |mut ns2| {
                ns2.resource("ns3", |mut ns3| {
                    ns3.resources("ns4", |mut ns4| {
                        ns4.segment("ns5", |mut ns5| {
                            ns5.get("info", |mut endpoint| {
                                let present = endpoint.handle(Hook::Stub);
                                (endpoint, present)
                            });
                            ns5
                        });
                        ns4
                    });
                    ns3
                });
                ns2
            });
            ns1
        });
        api
    });
    let app = Application::new(api);

    let response = app.call(&get("api/ns1/ns2/ns3/ns4/ns5/info")).ok().unwrap();
    assert_eq!(response.status, 200);
}

#[test]
fn multibyte_segments_keep_offsets_straight() {
    let api: Api<Hook, NoFmt> = Api::build(|mut api: Api<Hook, NoFmt>| {
        api.namespace("st\u{e4}dte/:id", |mut ns| {
            ns.get("profil", |mut endpoint| {
                let present = endpoint.handle(Hook::EchoId);
                (endpoint, present)
            });
            ns
        });
        api
    });
    let app = Application::new(api);

    let response = app.call(&get("st\u{e4}dte/K\u{f6}ln/profil")).ok().unwrap();
    assert_eq!(response.status, 200);
    assert_eq!(response.body.as_deref(), Some("K\u{f6}ln"));
}

#[test]
fn scenario_prefix_consumption() {
    let api: Api<Hook, NoFmt> = Api::build(|mut api: Api<Hook, NoFmt>| {
        api.namespace("users/:id", |mut ns| {
            ns.get("profile", |mut endpoint| {
                let present = endpoint.handle(Hook::EchoId);
                (endpoint, present)
            });
            ns
        });
        api
    });
    let app = Application::new(api);

    let response = app.call(&get("users/7/profile")).ok().unwrap();
    assert_eq!(response.status, 200);
    assert_eq!(response.body.as_deref(), Some("7"));

    let err_resp = app.call(&get("users/7/users/7/profile")).err().unwrap();
    assert_eq!(err_resp.response.status, 404);
}
