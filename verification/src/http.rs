//! Plain request and response values: the library's boundary with any
//! transport.  A server adapter builds a `Request` from the wire and writes
//! the returned `Response` back out; dispatch itself never performs I/O.
use vstd::prelude::*;

verus! {

use vstd::string::StringExecFns;

/// HTTP methods an endpoint can be bound to.
#[derive(Clone, Copy, PartialEq, Eq, Structural, Debug)]
pub enum Method {
    Get,
    Post,
    Put,
    Delete,
    Options,
    Head,
    Patch,
}

pub const STATUS_OK: u16 = 200;

pub const STATUS_MOVED_PERMANENTLY: u16 = 301;

pub const STATUS_FOUND: u16 = 302;

pub const STATUS_BAD_REQUEST: u16 = 400;

pub const STATUS_UNAUTHORIZED: u16 = 401;

pub const STATUS_FORBIDDEN: u16 = 403;

pub const STATUS_NOT_FOUND: u16 = 404;

pub const STATUS_INTERNAL_SERVER_ERROR: u16 = 500;

pub const STATUS_NOT_IMPLEMENTED: u16 = 501;

/// What kind of payload a request carries, derived from its content type.
#[derive(Clone, Copy, PartialEq, Eq, Structural, Debug)]
pub enum BodyKind {
    JsonBody,
    UrlEncodedBody,
    OtherBody,
    NoBody,
}

/// One incoming request, reduced to the plain values dispatch reads: the
/// method, the already-normalized path (no leading slash), the raw query
/// string, the Accept header as an ordered list of media-range strings, and
/// the body together with its content-type classification.
#[derive(Debug, PartialEq)]
pub struct Request {
    pub method: Method,
    pub path: String,
    pub query: Option<String>,
    pub accept: Option<Vec<String>>,
    pub body: Option<String>,
    pub body_kind: BodyKind,
}

/// The response being built for one request.
#[derive(Debug, PartialEq)]
pub struct Response {
    pub status: u16,
    pub headers: Vec<(String, String)>,
    pub body: Option<String>,
}

/// The shadow of a response.
pub struct RespV {
    pub status: u16,
    pub headers: Seq<(Seq<char>, Seq<char>)>,
    pub body: Option<Seq<char>>,
}

/// The position of a header name in a header list, or -1 when absent.
pub open spec fn spec_header_index(headers: Seq<(Seq<char>, Seq<char>)>, name: Seq<char>) -> int
    decreases headers.len(),
{
    if headers.len() == 0 {
        -1
    } else if headers[0].0 == name {
        0
    } else {
        let rest = spec_header_index(headers.drop_first(), name);
        if rest == -1 {
            -1
        } else {
            rest + 1
        }
    }
}

/// The header list after setting `name` to `value`: an existing entry is
/// replaced in place, a new one is appended.
pub open spec fn spec_set_header(
    headers: Seq<(Seq<char>, Seq<char>)>,
    name: Seq<char>,
    value: Seq<char>,
) -> Seq<(Seq<char>, Seq<char>)> {
    let i = spec_header_index(headers, name);
    if i == -1 {
        headers.push((name, value))
    } else {
        headers.update(i, (name, value))
    }
}

/// `spec_header_index` names the first entry with the given name, and -1
/// means no entry has it.
pub proof fn lemma_header_index(headers: Seq<(Seq<char>, Seq<char>)>, name: Seq<char>)
    ensures
        ({
            let i = spec_header_index(headers, name);
            &&& (i == -1 <==> (forall|j: int|
                0 <= j < headers.len() ==> headers[j].0 != name))
            &&& (i != -1 ==> 0 <= i < headers.len() && headers[i].0 == name && (forall|j: int|
                0 <= j < i ==> headers[j].0 != name))
        }),
    decreases headers.len(),
{
    if headers.len() > 0 && headers[0].0 != name {
        lemma_header_index(headers.drop_first(), name);
        let rest = spec_header_index(headers.drop_first(), name);
        if rest == -1 {
            assert forall|j: int| 0 <= j < headers.len() implies headers[j].0 != name by {
                if j >= 1 {
                    assert(headers.drop_first()[j - 1] == headers[j]);
                }
            }
        } else {
            assert(headers.drop_first()[rest] == headers[rest + 1]);
            assert forall|j: int| 0 <= j < rest + 1 implies headers[j].0 != name by {
                if j >= 1 {
                    assert(headers.drop_first()[j - 1] == headers[j]);
                }
            }
        }
    }
}

/// The views of a list of header pairs.
pub open spec fn view_headers(headers: Seq<(String, String)>) -> Seq<(Seq<char>, Seq<char>)> {
    Seq::new(headers.len(), |i: int| (headers[i].0@, headers[i].1@))
}

impl Response {
    /// The shadow of this response.
    pub open spec fn view(&self) -> RespV {
        RespV {
            status: self.status,
            headers: view_headers(self.headers@),
            body: match self.body {
                Some(b) => Some(b@),
                None => None,
            },
        }
    }

    /// A response with the given status, no headers and no body.
    pub fn new(status: u16) -> (r: Response)
        ensures
            r.view() == spec_new_response(status),
    {
        let r = Response { status, headers: Vec::new(), body: None };
        proof {
            assert(view_headers(r.headers@) =~= Seq::<(Seq<char>, Seq<char>)>::empty());
        }
        r
    }

    /// Sets a header, replacing any earlier value under the same name.
    pub fn set_header(&mut self, name: String, value: String)
        ensures
            final(self).view().status == old(self).view().status,
            final(self).view().body == old(self).view().body,
            final(self).view().headers == spec_set_header(old(self).view().headers, name@, value@),
    {
        let ghost orig = self.headers@;
        let ghost origv = view_headers(orig);
        let mut i: usize = 0;
        while i < self.headers.len()
            invariant
                0 <= i <= self.headers.len(),
                self.headers@ == orig,
                orig == old(self).headers@,
                origv == view_headers(orig),
                self.body == old(self).body,
                self.status == old(self).status,
                forall|j: int| 0 <= j < i ==> origv[j].0 != name@,
            decreases self.headers.len() - i,
        {
            if self.headers[i].0.eq(&name) {
                proof {
                    lemma_header_index(origv, name@);
                    assert(origv[i as int].0 == name@);
                    assert(spec_header_index(origv, name@) == i);
                }
                self.headers.set(i, (name, value));
                proof {
                    assert(view_headers(self.headers@) =~= spec_set_header(origv, name@, value@));
                }
                return ;
            }
            proof {
                assert(origv[i as int].0 == orig[i as int].0@);
            }
            i += 1;
        }
        proof {
            lemma_header_index(origv, name@);
            assert(spec_header_index(origv, name@) == -1);
        }
        self.headers.push((name, value));
        proof {
            assert(view_headers(self.headers@) =~= spec_set_header(origv, name@, value@));
        }
    }

    /// Appends text to the response body, starting one when none is there.
    pub fn push_string(&mut self, text: &str)
        ensures
            final(self).view().status == old(self).view().status,
            final(self).view().headers == old(self).view().headers,
            final(self).view().body == Some(
                match old(self).view().body {
                    Some(b) => b + text@,
                    None => text@,
                },
            ),
    {
        match self.body.take() {
            Some(mut b) => {
                b.append(text);
                self.body = Some(b);
            },
            None => {
                self.body = Some(text.to_owned());
            },
        }
    }
}

/// A fresh response: the given status, no headers, no body.
pub open spec fn spec_new_response(status: u16) -> RespV {
    RespV { status, headers: Seq::empty(), body: None }
}

} // verus!
