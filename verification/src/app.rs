//! The application: the outermost owner of one root Api.  Per request it
//! builds the parameter bag from the query string and the body (each layer
//! only filling names not already present), invokes the root Api with a
//! fresh call context, and turns any failure into a response: a pre-built
//! response wins, then the root Api's custom formatters, then the default
//! formatter, then the fixed status mapping.
use vstd::prelude::*;

verus! {

use crate::errors::{
    ErrorKind,
    ErrorResponse,
    ErrRespV,
    ErrV,
    view_error,
    spec_reasons_json,
    reasons_to_json,
};
use crate::framework::{
    Api,
    Callback,
    CallInfo,
    ErrorFormatter,
    StateV,
    handlers_wf,
    spec_api_node_call,
    spec_extract_media,
    spec_format_chain,
    extract_media,
};
use crate::http::{BodyKind, Request, Response, RespV, spec_new_response, spec_set_header};
use crate::http;
use crate::json::{JsonValue, JsonV, view_json, view_json_obj, lemma_view_obj, spec_json};
use crate::jsonparse::{parse_json, spec_parse_json};
use crate::media::{Media, MediaV, FormatV, spec_default_media};
use crate::params::{Params, ParamsV, spec_has_key, spec_insert};
use crate::path::view_pairs;
use crate::query::{parse_query, spec_query_pairs};
use vstd::string::StringExecFns;
use vstd::string::StrSliceExecFns;

/// A failure after mapping: the error and the response that now stands for
/// it.
#[derive(Debug, PartialEq)]
pub struct StrictErrorResponse {
    pub error: ErrorKind,
    pub response: Response,
}

/// The bag after the listed query pairs, from `i` on, fill names not
/// already present.
pub open spec fn spec_merge_pairs(
    params: ParamsV,
    pairs: Seq<(Seq<char>, Seq<char>)>,
    i: int,
) -> ParamsV
    decreases pairs.len() - i,
    when 0 <= i <= pairs.len()
{
    if i >= pairs.len() {
        params
    } else {
        let p2 = if spec_has_key(params, pairs[i].0) {
            params
        } else {
            spec_insert(params, pairs[i].0, JsonV::Str(pairs[i].1))
        };
        spec_merge_pairs(p2, pairs, i + 1)
    }
}

/// The bag after the object entries fill names not already present, in
/// order.
pub open spec fn spec_merge_obj(params: ParamsV, entries: ParamsV) -> ParamsV
    decreases entries.len(),
{
    if entries.len() == 0 {
        params
    } else {
        let p2 = if spec_has_key(params, entries[0].0) {
            params
        } else {
            spec_insert(params, entries[0].0, entries[0].1)
        };
        spec_merge_obj(p2, entries.drop_first())
    }
}

/// The parameter bag built from a request: query-string pairs first, then
/// body members, each layer only filling names not already present.  A
/// JSON body that is not an object goes whole under the name `body`; a
/// malformed JSON body is a decode error.
pub open spec fn spec_parse_request(req: Request) -> Result<ParamsV, ErrRespV> {
    let p1: ParamsV = match req.query {
        Some(q) => spec_merge_pairs(Seq::empty(), spec_query_pairs(q@, 0), 0),
        None => Seq::empty(),
    };
    match req.body_kind {
        BodyKind::JsonBody => match req.body {
            Some(b) => if b@.len() == 0 {
                Ok(p1)
            } else {
                match spec_parse_json(b@) {
                    None => Err(
                        ErrRespV { error: ErrV::Body("invalid JSON body"@), response: None },
                    ),
                    Some(v) => match v {
                        JsonV::Object(entries) => Ok(spec_merge_obj(p1, entries)),
                        _ => Ok(spec_insert(p1, "body"@, v)),
                    },
                }
            },
            None => Ok(p1),
        },
        BodyKind::UrlEncodedBody => match req.body {
            Some(b) => if b@.len() == 0 {
                Ok(p1)
            } else {
                Ok(spec_merge_pairs(p1, spec_query_pairs(b@, 0), 0))
            },
            None => Ok(p1),
        },
        _ => Ok(p1),
    }
}

/// The indented plain-text form of validation reasons: one line per
/// reason, four spaces, the name, a colon, the code.
pub open spec fn spec_reasons_text(reasons: Seq<crate::errors::ReasonV>, i: int) -> Seq<char>
    decreases reasons.len() - i,
    when 0 <= i <= reasons.len()
{
    if i >= reasons.len() {
        Seq::empty()
    } else {
        "    "@ + reasons[i].name + ": "@ + reasons[i].code + "\n"@ + spec_reasons_text(
            reasons,
            i + 1,
        )
    }
}

/// What the default formatter makes of an error: a validation failure
/// becomes a 400 whose body matches the negotiated media — the structured
/// reasons as JSON for JSON media, as indented text otherwise; every other
/// kind passes through unformatted.
pub open spec fn spec_default_format(error: ErrV, media: MediaV) -> Option<RespV> {
    match error {
        ErrV::Validation(reasons) => match media.format {
            FormatV::Json => Some(
                RespV {
                    status: http::STATUS_BAD_REQUEST,
                    headers: spec_set_header(
                        Seq::empty(),
                        "Content-Type"@,
                        "application/json"@,
                    ),
                    body: Some(spec_json(spec_reasons_json(reasons))),
                },
            ),
            _ => Some(
                RespV {
                    status: http::STATUS_BAD_REQUEST,
                    headers: Seq::empty(),
                    body: Some(spec_reasons_text(reasons, 0)),
                },
            ),
        },
        _ => None,
    }
}

/// The fixed status an unformatted error falls back to.
pub open spec fn spec_status_for(error: ErrV) -> u16 {
    match error {
        ErrV::NotMatch => http::STATUS_NOT_FOUND,
        ErrV::Validation(_) => http::STATUS_BAD_REQUEST,
        _ => http::STATUS_INTERNAL_SERVER_ERROR,
    }
}

/// How a failure becomes a response: a pre-built response wins; otherwise
/// the root Api's custom formatters are walked in registration order, then
/// the default formatter, and at last the fixed status mapping with an
/// empty body.
pub open spec fn spec_handle_failure<C: Callback, F: ErrorFormatter>(
    root: Api<C, F>,
    e: ErrRespV,
    req: Request,
) -> (ErrV, RespV) {
    if e.response is Some {
        (e.error, e.response->0)
    } else {
        let media = spec_extract_media(req);
        match spec_format_chain(root.error_formatters@, 0, e.error, media) {
            Some(resp) => (e.error, resp),
            None => match spec_default_format(e.error, media) {
                Some(resp) => (e.error, resp),
                None => (e.error, spec_new_response(spec_status_for(e.error))),
            },
        }
    }
}

/// The outermost owner of one root Api, with an application-scoped
/// extension bag beside it.
pub struct Application<C, F> {
    pub root_api: Api<C, F>,
    pub ext: crate::Extensions,
}

impl<C: Callback, F: ErrorFormatter> crate::Extensible for Application<C, F> {
    open spec fn spec_ext(&self) -> ParamsV {
        self.ext.view()
    }

    fn ext_find(&self, key: &str) -> (r: Option<&JsonValue>) {
        self.ext.entries.find(key)
    }

    fn ext_insert(&mut self, key: String, value: JsonValue) {
        self.ext.entries.insert(key, value);
    }
}

/// What one whole request comes to: the response, or the failing error
/// with the response now standing for it.
pub open spec fn spec_app_call<C: Callback, F: ErrorFormatter>(
    app: Application<C, F>,
    req: Request,
) -> Result<RespV, (ErrV, RespV)> {
    match spec_parse_request(req) {
        Err(e) => Err(spec_handle_failure(app.root_api, e, req)),
        Ok(params) => {
            let st0 = StateV::<C> {
                params,
                media: spec_default_media(),
                parents: Seq::empty(),
            };
            let out = spec_api_node_call(app.root_api, req.path@, st0, req);
            match out.result {
                Ok(resp) => Ok(resp),
                Err(e) => Err(spec_handle_failure(app.root_api, e, req)),
            }
        },
    }
}

/// Builds the indented plain-text form of validation reasons.
fn reasons_text(reasons: &Vec<crate::errors::ValidationReason>) -> (r: String)
    ensures
        r@ == spec_reasons_text(crate::errors::view_reasons(reasons@), 0),
{
    let ghost rv = crate::errors::view_reasons(reasons@);
    let mut out = String::new();
    let mut i: usize = 0;
    proof {
        assert(out@ + spec_reasons_text(rv, 0) =~= spec_reasons_text(rv, 0));
    }
    while i < reasons.len()
        invariant
            0 <= i <= reasons@.len(),
            rv == crate::errors::view_reasons(reasons@),
            rv.len() == reasons@.len(),
            out@ + spec_reasons_text(rv, i as int) == spec_reasons_text(rv, 0),
        decreases reasons@.len() - i,
    {
        out.append("    ");
        out.append(reasons[i].name.as_str());
        out.append(": ");
        out.append(reasons[i].code.as_str());
        out.append("\n");
        i += 1;
        proof {
            assert(out@ + spec_reasons_text(rv, i as int) =~= spec_reasons_text(rv, 0));
        }
    }
    proof {
        assert(out@ =~= spec_reasons_text(rv, 0));
    }
    out
}

/// The default formatter: a validation failure becomes a structured 400
/// shaped by the media; everything else passes through.
pub fn default_format(error: &ErrorKind, media: &Media) -> (r: Option<Response>)
    ensures
        match r {
            Some(resp) => spec_default_format(view_error(*error), media.view()) == Some(
                resp.view(),
            ),
            None => spec_default_format(view_error(*error), media.view()) is None,
        },
{
    match error {
        ErrorKind::Validation(reasons) => {
            match &media.format {
                crate::media::Format::JsonFormat => {
                    let mut resp = Response::new(http::STATUS_BAD_REQUEST);
                    resp.set_header(
                        String::from_str("Content-Type"),
                        String::from_str("application/json"),
                    );
                    let value = reasons_to_json(reasons);
                    let text = value.to_json_string();
                    resp.push_string(text.as_str());
                    proof {
                        assert(resp.view().headers =~= spec_set_header(
                            Seq::empty(),
                            "Content-Type"@,
                            "application/json"@,
                        ));
                    }
                    Some(resp)
                },
                _ => {
                    let mut resp = Response::new(http::STATUS_BAD_REQUEST);
                    let text = reasons_text(reasons);
                    resp.push_string(text.as_str());
                    Some(resp)
                },
            }
        },
        _ => None,
    }
}

/// The default formatter as a mountable value.
pub struct DefaultFormatter;

impl ErrorFormatter for DefaultFormatter {
    open spec fn on_format(&self, error: ErrV, media: MediaV) -> Option<RespV> {
        spec_default_format(error, media)
    }

    fn format(&self, error: &ErrorKind, media: &Media) -> (r: Option<Response>) {
        default_format(error, media)
    }
}

/// The default formatter, for registration on an Api.
pub fn create_default_error_formatter() -> (r: DefaultFormatter)
    ensures
        r == DefaultFormatter,
{
    DefaultFormatter
}

/// Fills names not already present from decoded query pairs, in order.
fn merge_pairs(params: &mut Params, pairs: &Vec<(String, String)>)
    ensures
        final(params).view() == spec_merge_pairs(old(params).view(), view_pairs(pairs@), 0),
{
    let ghost pv = view_pairs(pairs@);
    let mut i: usize = 0;
    while i < pairs.len()
        invariant
            0 <= i <= pairs@.len(),
            pv == view_pairs(pairs@),
            pv.len() == pairs@.len(),
            spec_merge_pairs(params.view(), pv, i as int) == spec_merge_pairs(
                old(params).view(),
                pv,
                0,
            ),
        decreases pairs@.len() - i,
    {
        if !params.contains_key(pairs[i].0.as_str()) {
            params.insert(pairs[i].0.clone(), JsonValue::Str(pairs[i].1.clone()));
        }
        i += 1;
    }
}

/// Fills names not already present from a parsed object's entries, in
/// order.
fn merge_obj(params: &mut Params, entries: Vec<(String, JsonValue)>)
    ensures
        final(params).view() == spec_merge_obj(old(params).view(), view_json_obj(entries@, 0)),
{
    let mut rest = entries;
    while rest.len() > 0
        invariant
            spec_merge_obj(params.view(), view_json_obj(rest@, 0)) == spec_merge_obj(
                old(params).view(),
                view_json_obj(entries@, 0),
            ),
        decreases rest@.len(),
    {
        let ghost rest0 = rest@;
        proof {
            lemma_view_obj(rest0, 0);
        }
        let (key, value) = rest.remove(0);
        proof {
            assert(rest@ =~= rest0.drop_first());
            lemma_view_obj(rest@, 0);
            assert forall|k: int| 0 <= k < rest@.len() implies view_json_obj(rest@, 0)[k]
                == view_json_obj(rest0, 0).drop_first()[k] by {
                assert(view_json_obj(rest@, 0)[k] == (rest@[k].0@, view_json(rest@[k].1)));
                assert(rest@[k] == rest0[k + 1]);
                assert(view_json_obj(rest0, 0)[k + 1] == (rest0[k + 1].0@, view_json(
                    rest0[k + 1].1,
                )));
            }
            assert(view_json_obj(rest@, 0) =~= view_json_obj(rest0, 0).drop_first());
            assert(view_json_obj(rest0, 0)[0] == (key@, view_json(value)));
        }
        if !params.contains_key(key.as_str()) {
            params.insert(key, value);
        }
    }
    proof {
        assert(view_json_obj(rest@, 0) =~= Seq::<(Seq<char>, JsonV)>::empty());
    }
}

impl<C: Callback, F: ErrorFormatter> Application<C, F> {
    /// An application around its root Api, with an empty extension bag.
    pub fn new(root_api: Api<C, F>) -> (r: Application<C, F>)
        ensures
            r.root_api == root_api,
            r.ext.view() =~= Seq::<(Seq<char>, JsonV)>::empty(),
    {
        Application { root_api, ext: crate::Extensions::new() }
    }

    /// Turns a failure into its response, per the formatter chain and the
    /// fixed mapping.
    fn handle_failure(&self, e: ErrorResponse, req: &Request) -> (r: StrictErrorResponse)
        ensures
            (view_error(r.error), r.response.view()) == spec_handle_failure(
                self.root_api,
                e.view(),
                *req,
            ),
    {
        let ErrorResponse { error, response } = e;
        match response {
            Some(resp) => StrictErrorResponse { error, response: resp },
            None => {
                let media = extract_media(req);
                match self.root_api.handle_error(&error, &media) {
                    Some(resp) => StrictErrorResponse { error, response: resp },
                    None => {
                        match default_format(&error, &media) {
                            Some(resp) => StrictErrorResponse { error, response: resp },
                            None => {
                                let status = match &error {
                                    ErrorKind::NotMatch => http::STATUS_NOT_FOUND,
                                    ErrorKind::Validation(_) => http::STATUS_BAD_REQUEST,
                                    _ => http::STATUS_INTERNAL_SERVER_ERROR,
                                };
                                StrictErrorResponse { error, response: Response::new(status) }
                            },
                        }
                    },
                }
            },
        }
    }

    /// Builds the parameter bag from the request's query string and body.
    fn parse_request(&self, req: &Request) -> (r: Result<Params, ErrorResponse>)
        ensures
            match r {
                Ok(params) => spec_parse_request(*req) == Ok::<ParamsV, ErrRespV>(params.view()),
                Err(e) => spec_parse_request(*req) == Err::<ParamsV, ErrRespV>(e.view()),
            },
    {
        let mut params = Params::new();
        match &req.query {
            Some(q) => {
                let pairs = parse_query(q.as_str());
                merge_pairs(&mut params, &pairs);
            },
            None => {},
        }
        match req.body_kind {
            BodyKind::JsonBody => {
                match &req.body {
                    Some(b) => {
                        if b.as_str().unicode_len() > 0 {
                            match parse_json(b.as_str()) {
                                None => {
                                    proof {
                                        reveal_strlit("invalid JSON body");
                                    }
                                    return Err(
                                        ErrorResponse::new(
                                            ErrorKind::Body(
                                                String::from_str("invalid JSON body"),
                                            ),
                                        ),
                                    );
                                },
                                Some(v) => {
                                    match v {
                                        JsonValue::Object(entries) => {
                                            merge_obj(&mut params, entries);
                                        },
                                        other => {
                                            params.insert(String::from_str("body"), other);
                                            proof {
                                                reveal_strlit("body");
                                            }
                                        },
                                    }
                                },
                            }
                        }
                    },
                    None => {},
                }
            },
            BodyKind::UrlEncodedBody => {
                match &req.body {
                    Some(b) => {
                        if b.as_str().unicode_len() > 0 {
                            let pairs = parse_query(b.as_str());
                            merge_pairs(&mut params, &pairs);
                        }
                    },
                    None => {},
                }
            },
            _ => {},
        }
        Ok(params)
    }

    /// Handles one whole request: build the bag, walk the tree, and map
    /// any failure to a response.
    pub fn call(&self, req: &Request) -> (r: Result<Response, StrictErrorResponse>)
        requires
            handlers_wf(self.root_api.handlers@, 0),
        ensures
            match r {
                Ok(resp) => spec_app_call(*self, *req) == Ok::<RespV, (ErrV, RespV)>(resp.view()),
                Err(se) => spec_app_call(*self, *req) == Err::<RespV, (ErrV, RespV)>(
                    (view_error(se.error), se.response.view()),
                ),
            },
    {
        let mut params = match self.parse_request(req) {
            Ok(params) => params,
            Err(e) => {
                return Err(self.handle_failure(e, req));
            },
        };
        let mut info = CallInfo::new();
        proof {
            assert(crate::framework::parents_view(info.parents@) =~= Seq::<
                crate::framework::CallbackList<C>,
            >::empty());
        }
        match self.root_api.api_call(req.path.as_str(), &mut params, req, &mut info) {
            Ok(resp) => Ok(resp),
            Err(e) => Err(self.handle_failure(e, req)),
        }
    }
}

} // verus!
