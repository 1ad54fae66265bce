//! The per-request handle handed to callbacks and handlers: the response
//! being built and the negotiated media.
use vstd::prelude::*;

verus! {

use crate::http::{Response, RespV, spec_set_header, spec_new_response};
use crate::http;
use crate::media::{Media, MediaV};
use crate::errors::{ErrorKind, ErrorResponse};
use crate::json::{JsonValue, spec_json};
use vstd::string::StringExecFns;

/// The in-flight state a callback or handler works on.
#[derive(Debug, PartialEq)]
pub struct Client {
    pub response: Response,
    pub media: Media,
}

/// The shadow of a client.
pub struct ClientV {
    pub response: RespV,
    pub media: MediaV,
}

/// A fresh client: an OK response with nothing in it yet, under the given
/// media.
pub open spec fn spec_new_client(media: MediaV) -> ClientV {
    ClientV { response: spec_new_response(http::STATUS_OK), media }
}

impl Client {
    /// The shadow of this client.
    pub open spec fn view(&self) -> ClientV {
        ClientV { response: self.response.view(), media: self.media.view() }
    }

    /// A fresh client for one request.
    pub fn new(media: Media) -> (r: Client)
        ensures
            r.view() == spec_new_client(media.view()),
    {
        Client { response: Response::new(http::STATUS_OK), media }
    }

    /// The status set so far.
    pub fn status(&self) -> (r: u16)
        ensures
            r == self.view().response.status,
    {
        self.response.status
    }

    /// Sets the response status.
    pub fn set_status(&mut self, status: u16)
        ensures
            final(self).view() == (ClientV {
                response: RespV { status, ..old(self).view().response },
                ..old(self).view()
            }),
    {
        self.response.status = status;
    }

    /// Sets the status to Unauthorized.
    pub fn unauthorized(&mut self)
        ensures
            final(self).view() == (ClientV {
                response: RespV { status: http::STATUS_UNAUTHORIZED, ..old(self).view().response },
                ..old(self).view()
            }),
    {
        self.response.status = http::STATUS_UNAUTHORIZED;
    }

    /// Sets the status to Forbidden.
    pub fn forbidden(&mut self)
        ensures
            final(self).view() == (ClientV {
                response: RespV { status: http::STATUS_FORBIDDEN, ..old(self).view().response },
                ..old(self).view()
            }),
    {
        self.response.status = http::STATUS_FORBIDDEN;
    }

    /// Sets the status to Not Found.
    pub fn not_found(&mut self)
        ensures
            final(self).view() == (ClientV {
                response: RespV { status: http::STATUS_NOT_FOUND, ..old(self).view().response },
                ..old(self).view()
            }),
    {
        self.response.status = http::STATUS_NOT_FOUND;
    }

    /// Sets the status to Internal Server Error.
    pub fn internal_server_error(&mut self)
        ensures
            final(self).view() == (ClientV {
                response: RespV {
                    status: http::STATUS_INTERNAL_SERVER_ERROR,
                    ..old(self).view().response
                },
                ..old(self).view()
            }),
    {
        self.response.status = http::STATUS_INTERNAL_SERVER_ERROR;
    }

    /// Sets the status to Not Implemented.
    pub fn not_implemented(&mut self)
        ensures
            final(self).view() == (ClientV {
                response: RespV {
                    status: http::STATUS_NOT_IMPLEMENTED,
                    ..old(self).view().response
                },
                ..old(self).view()
            }),
    {
        self.response.status = http::STATUS_NOT_IMPLEMENTED;
    }

    /// Sets a response header.
    pub fn set_header(&mut self, name: String, value: String)
        ensures
            final(self).view() == (ClientV {
                response: RespV {
                    headers: spec_set_header(old(self).view().response.headers, name@, value@),
                    ..old(self).view().response
                },
                ..old(self).view()
            }),
    {
        self.response.set_header(name, value);
    }

    /// Marks the response as JSON.
    pub fn set_json_content_type(&mut self)
        ensures
            final(self).view() == (ClientV {
                response: RespV {
                    headers: spec_set_header(
                        old(self).view().response.headers,
                        "Content-Type"@,
                        "application/json"@,
                    ),
                    ..old(self).view().response
                },
                ..old(self).view()
            }),
    {
        self.set_header(String::from_str("Content-Type"), String::from_str("application/json"));
    }

    /// Sets the response content type.
    pub fn set_content_type(&mut self, mime: String)
        ensures
            final(self).view() == (ClientV {
                response: RespV {
                    headers: spec_set_header(
                        old(self).view().response.headers,
                        "Content-Type"@,
                        mime@,
                    ),
                    ..old(self).view().response
                },
                ..old(self).view()
            }),
    {
        self.set_header(String::from_str("Content-Type"), mime);
    }

    /// Fails the request with an application error.
    pub fn error(&self, error: ErrorKind) -> (r: Result<(), ErrorResponse>)
        ensures
            r == Result::<(), ErrorResponse>::Err(ErrorResponse { error, response: None }),
    {
        Err(ErrorResponse { error, response: None })
    }

    /// Responds with a JSON payload: marks the response as JSON and
    /// appends the serialized value.
    pub fn json(&mut self, result: &JsonValue) -> (r: Result<(), ErrorResponse>)
        ensures
            r is Ok,
            final(self).view() == (ClientV {
                response: RespV {
                    headers: spec_set_header(
                        old(self).view().response.headers,
                        "Content-Type"@,
                        "application/json"@,
                    ),
                    body: Some(
                        match old(self).view().response.body {
                            Some(b) => b + spec_json(result.view()),
                            None => spec_json(result.view()),
                        },
                    ),
                    ..old(self).view().response
                },
                ..old(self).view()
            }),
    {
        self.set_json_content_type();
        let text = result.to_json_string();
        self.response.push_string(text.as_str());
        Ok(())
    }

    /// Responds with plain text appended to the body.
    pub fn text(&mut self, result: String) -> (r: Result<(), ErrorResponse>)
        ensures
            r is Ok,
            final(self).view() == (ClientV {
                response: RespV {
                    body: Some(
                        match old(self).view().response.body {
                            Some(b) => b + result@,
                            None => result@,
                        },
                    ),
                    ..old(self).view().response
                },
                ..old(self).view()
            }),
    {
        self.response.push_string(result.as_str());
        Ok(())
    }

    /// Responds with whatever has been built so far.
    pub fn empty(&mut self) -> (r: Result<(), ErrorResponse>)
        ensures
            r is Ok,
            *final(self) == *old(self),
    {
        Ok(())
    }

    /// Responds with a temporary redirect to `to`.
    pub fn redirect(&mut self, to: &str) -> (r: Result<(), ErrorResponse>)
        ensures
            r is Ok,
            final(self).view() == (ClientV {
                response: RespV {
                    status: http::STATUS_FOUND,
                    headers: spec_set_header(
                        old(self).view().response.headers,
                        "Location"@,
                        to@,
                    ),
                    ..old(self).view().response
                },
                ..old(self).view()
            }),
    {
        self.response.status = http::STATUS_FOUND;
        self.response.set_header(String::from_str("Location"), to.to_owned());
        Ok(())
    }

    /// Responds with a permanent redirect to `to`.
    pub fn permanent_redirect(&mut self, to: &str) -> (r: Result<(), ErrorResponse>)
        ensures
            r is Ok,
            final(self).view() == (ClientV {
                response: RespV {
                    status: http::STATUS_MOVED_PERMANENTLY,
                    headers: spec_set_header(
                        old(self).view().response.headers,
                        "Location"@,
                        to@,
                    ),
                    ..old(self).view().response
                },
                ..old(self).view()
            }),
    {
        self.response.status = http::STATUS_MOVED_PERMANENTLY;
        self.response.set_header(String::from_str("Location"), to.to_owned());
        Ok(())
    }

    /// Hands the built response out.
    pub fn move_response(self) -> (r: Response)
        ensures
            r.view() == self.view().response,
    {
        self.response
    }
}

} // verus!
