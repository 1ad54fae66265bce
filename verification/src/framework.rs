//! The dispatch tree and its walk.  A tree is built once out of three node
//! kinds: an `Api` strips a prefix, resolves a version constraint and
//! negotiates media; a `Namespace` consumes a matched path prefix and may
//! validate shared parameters; an `Endpoint` guards on method and full
//! path, runs every ancestor's callbacks around validation and its
//! handler, and produces the response.  Children are tried strictly in
//! mount order, and `NotMatch` sends dispatch to the next sibling.
//!
//! Every step is mirrored by a spec function over value shadows, so the
//! outcome of a call is a mathematical function of the tree, the request
//! and the incoming state.
use vstd::prelude::*;

verus! {

use crate::client::{Client, ClientV, spec_new_client};
use crate::errors::{ErrorKind, ErrorResponse, ErrRespV, ErrV, view_error};
use crate::http::{Method, Request, Response, RespV};
use crate::json::{JsonV, JsonValue};
use crate::media::{Media, MediaV, spec_classify, spec_default_media};
use crate::params::{Params, ParamsV, spec_has_key, spec_lookup};
use crate::path::{Path, spec_apply_captures, spec_match_at, spec_normalize, view_pairs};
use crate::schema::{Schema, spec_validate};
use crate::strutil::{str_eq, str_starts_with, str_suffix};
use vstd::string::StrSliceExecFns;

/// A cross-cutting hook: one before/after callback, or an endpoint
/// handler.  `on_call` is the hook's own statement of what it does to the
/// client; `call` must act exactly as `on_call` says, so a whole dispatch
/// stays a function of its inputs.
pub trait Callback: Sized {
    /// What the hook does: the client it leaves behind and its verdict,
    /// as a function of the client and bag it was given.
    spec fn on_call(&self, client: ClientV, params: ParamsV) -> (ClientV, Result<(), ErrRespV>);

    /// Runs the hook against the in-flight response.
    fn call(&self, client: &mut Client, params: &Params) -> (r: Result<(), ErrorResponse>)
        ensures
            ({
                let (c2, r2) = self.on_call(old(client).view(), params.view());
                &&& final(client).view() == c2
                &&& match r {
                    Ok(()) => r2 is Ok,
                    Err(e) => r2 == Result::<(), ErrRespV>::Err(e.view()),
                }
            }),
    ;
}

/// A hook that does nothing and always succeeds.
pub struct PassCallback;

impl Callback for PassCallback {
    open spec fn on_call(&self, client: ClientV, params: ParamsV) -> (
        ClientV,
        Result<(), ErrRespV>,
    ) {
        (client, Ok(()))
    }

    fn call(&self, client: &mut Client, params: &Params) -> (r: Result<(), ErrorResponse>) {
        Ok(())
    }
}

/// A custom error formatter: asked, innermost registration first, to turn
/// an error into a response; the first `Some` wins.
pub trait ErrorFormatter: Sized {
    /// What the formatter answers, as a function of the error and media.
    spec fn on_format(&self, error: ErrV, media: MediaV) -> Option<RespV>;

    /// Formats the error, or declines.
    fn format(&self, error: &ErrorKind, media: &Media) -> (r: Option<Response>)
        ensures
            match r {
                Some(resp) => self.on_format(view_error(*error), media.view()) == Some(
                    resp.view(),
                ),
                None => self.on_format(view_error(*error), media.view()) is None,
            },
    ;
}

/// A formatter that always declines.
pub struct NoFormatter;

impl ErrorFormatter for NoFormatter {
    open spec fn on_format(&self, error: ErrV, media: MediaV) -> Option<RespV> {
        None
    }

    fn format(&self, error: &ErrorKind, media: &Media) -> (r: Option<Response>) {
        None
    }
}

/// The four ordered callback lists every container node carries.
pub struct CallbackList<C> {
    pub before: Vec<C>,
    pub before_validation: Vec<C>,
    pub after_validation: Vec<C>,
    pub after: Vec<C>,
}

impl<C> CallbackList<C> {
    /// Four empty lists.
    pub fn new() -> (r: CallbackList<C>)
        ensures
            r.before@ =~= Seq::<C>::empty(),
            r.before_validation@ =~= Seq::<C>::empty(),
            r.after_validation@ =~= Seq::<C>::empty(),
            r.after@ =~= Seq::<C>::empty(),
    {
        CallbackList {
            before: Vec::new(),
            before_validation: Vec::new(),
            after_validation: Vec::new(),
            after: Vec::new(),
        }
    }
}

/// The callback phases, in running order around validation and the
/// handler.
#[derive(Clone, Copy, PartialEq, Eq, Structural, Debug)]
pub enum Phase {
    Before,
    BeforeValidation,
    AfterValidation,
    After,
}

/// The list a node contributes to the given phase.
pub open spec fn spec_phase_list<C>(callbacks: CallbackList<C>, phase: Phase) -> Seq<C> {
    match phase {
        Phase::Before => callbacks.before@,
        Phase::BeforeValidation => callbacks.before_validation@,
        Phase::AfterValidation => callbacks.after_validation@,
        Phase::After => callbacks.after@,
    }
}

/// How an `Api` asks for its version: as the next path segment, as a
/// vendor-tree Accept value, or as a parameter of the given name.
#[derive(Debug, PartialEq)]
pub enum Versioning {
    Path,
    AcceptHeader(String),
    Param(String),
}

/// A version constraint: the expected version and where to look for it.
#[derive(Debug, PartialEq)]
pub struct Version {
    pub version: String,
    pub versioning: Versioning,
}

/// The proof an endpoint builder installed a handler.
pub enum EndpointHandlerPresent {
    HandlerPresent,
}

/// A terminal node: one method, one end-anchored pattern, an optional
/// parameter schema and one handler.
pub struct Endpoint<C> {
    pub method: Method,
    pub path: Path,
    pub summary: Option<String>,
    pub desc: Option<String>,
    pub coercer: Option<Schema>,
    pub handler: Option<C>,
}

/// A non-terminal node scoped by a path prefix pattern, with an optional
/// schema for parameters its children share.
pub struct Namespace<C, F> {
    pub path: Path,
    pub coercer: Option<Schema>,
    pub handlers: Vec<ApiHandler<C, F>>,
    pub callbacks: CallbackList<C>,
}

/// A root or nested container: an optional plain prefix, an optional
/// version constraint, children, callbacks and custom error formatters.
pub struct Api<C, F> {
    pub prefix: Option<String>,
    pub version: Option<Version>,
    pub handlers: Vec<ApiHandler<C, F>>,
    pub callbacks: CallbackList<C>,
    pub error_formatters: Vec<F>,
    pub consumes: Option<Vec<String>>,
    pub produces: Option<Vec<String>>,
}

/// Any element of the dispatch tree.
pub enum ApiHandler<C, F> {
    Api(Api<C, F>),
    Namespace(Namespace<C, F>),
    Endpoint(Endpoint<C>),
}

/// The per-request state: the negotiated media and the ancestor callback
/// stack, outermost first.
pub struct CallInfo<'a, C> {
    pub media: Media,
    pub parents: Vec<&'a CallbackList<C>>,
}

impl<'a, C> CallInfo<'a, C> {
    /// A fresh context with default media and no ancestors.
    pub fn new() -> (r: CallInfo<'a, C>)
        ensures
            r.media.view() == spec_default_media(),
            r.parents@ =~= Seq::<&'a CallbackList<C>>::empty(),
    {
        CallInfo { media: Media::default(), parents: Vec::new() }
    }
}

/// The ancestor stack as values.
pub open spec fn parents_view<C>(parents: Seq<&CallbackList<C>>) -> Seq<CallbackList<C>> {
    parents.map_values(|p: &CallbackList<C>| *p)
}

/// The mutable dispatch state a call threads: the bag, the media, and the
/// ancestor stack.
pub struct StateV<C> {
    pub params: ParamsV,
    pub media: MediaV,
    pub parents: Seq<CallbackList<C>>,
}

/// A dispatch outcome: the state left behind, and the response or error.
pub struct OutV<C> {
    pub state: StateV<C>,
    pub result: Result<RespV, ErrRespV>,
}

/// A `NotMatch` error with nothing attached: the backtracking signal.
pub open spec fn spec_not_match() -> ErrRespV {
    ErrRespV { error: ErrV::NotMatch, response: None }
}

/// Every endpoint under the node holds a handler (from position `i` on
/// for the list forms).
pub open spec fn node_wf<C, F>(n: ApiHandler<C, F>) -> bool
    decreases n, 1int, 0int,
{
    match n {
        ApiHandler::Api(api) => handlers_wf(api.handlers@, 0),
        ApiHandler::Namespace(ns) => !ns.path.endpoint && handlers_wf(ns.handlers@, 0),
        ApiHandler::Endpoint(e) => e.handler is Some && e.path.endpoint,
    }
}

/// Every endpoint under the listed nodes holds a handler.
pub open spec fn handlers_wf<C, F>(handlers: Seq<ApiHandler<C, F>>, i: int) -> bool
    decreases handlers, 0int, (handlers.len() - i),
    when 0 <= i <= handlers.len()
{
    if i == handlers.len() {
        true
    } else {
        node_wf(handlers[i]) && handlers_wf(handlers, i + 1)
    }
}

/// The hooks of one list from `j` on, run in order against the client:
/// the first failure stops the rest.
pub open spec fn spec_run_list<C: Callback>(
    cbs: Seq<C>,
    j: int,
    client: ClientV,
    params: ParamsV,
) -> (ClientV, Result<(), ErrRespV>)
    decreases cbs.len() - j,
    when 0 <= j <= cbs.len()
{
    if j == cbs.len() {
        (client, Ok(()))
    } else {
        let (c2, r) = cbs[j].on_call(client, params);
        match r {
            Ok(()) => spec_run_list(cbs, j + 1, c2, params),
            Err(e) => (c2, Err(e)),
        }
    }
}

/// One phase's hooks of every ancestor from `pi` on, outermost first.
pub open spec fn spec_run_phase<C: Callback>(
    parents: Seq<CallbackList<C>>,
    pi: int,
    phase: Phase,
    client: ClientV,
    params: ParamsV,
) -> (ClientV, Result<(), ErrRespV>)
    decreases parents.len() - pi,
    when 0 <= pi <= parents.len()
{
    if pi == parents.len() {
        (client, Ok(()))
    } else {
        let (c2, r) = spec_run_list(spec_phase_list(parents[pi], phase), 0, client, params);
        match r {
            Ok(()) => spec_run_phase(parents, pi + 1, phase, c2, params),
            Err(e) => (c2, Err(e)),
        }
    }
}

/// The endpoint pipeline once method and path have matched and captures
/// are in the bag: before hooks, before-validation hooks, validation and
/// coercion, after-validation hooks, the handler, after hooks; the first
/// failure aborts the rest and travels up unchanged.
pub open spec fn spec_endpoint_pipeline<C: Callback>(
    e: Endpoint<C>,
    st: StateV<C>,
    req: Request,
) -> OutV<C> {
    let client0 = spec_new_client(st.media);
    let (c1, r1) = spec_run_phase(st.parents, 0, Phase::Before, client0, st.params);
    if r1 is Err {
        OutV { state: st, result: Err(r1->Err_0) }
    } else {
        let (c2, r2) = spec_run_phase(st.parents, 0, Phase::BeforeValidation, c1, st.params);
        if r2 is Err {
            OutV { state: st, result: Err(r2->Err_0) }
        } else {
            let (params2, reasons): (ParamsV, Seq<crate::errors::ReasonV>) = match e.coercer {
                Some(schema) => spec_validate(schema.rules@, 0, st.params, Seq::empty()),
                None => (st.params, Seq::empty()),
            };
            let st2 = StateV { params: params2, ..st };
            if reasons.len() > 0 {
                OutV {
                    state: st2,
                    result: Err(ErrRespV { error: ErrV::Validation(reasons), response: None }),
                }
            } else {
                let (c3, r3) = spec_run_phase(st.parents, 0, Phase::AfterValidation, c2, params2);
                if r3 is Err {
                    OutV { state: st2, result: Err(r3->Err_0) }
                } else {
                    let (c4, r4) = e.handler->Some_0.on_call(c3, params2);
                    if r4 is Err {
                        OutV { state: st2, result: Err(r4->Err_0) }
                    } else {
                        let (c5, r5) = spec_run_phase(st.parents, 0, Phase::After, c4, params2);
                        if r5 is Err {
                            OutV { state: st2, result: Err(r5->Err_0) }
                        } else {
                            OutV { state: st2, result: Ok(c5.response) }
                        }
                    }
                }
            }
        }
    }
}

/// An endpoint's answer to a request: `NotMatch` unless the method equals
/// the bound one and the pattern consumes the whole remaining path; then
/// the captures go into the bag and the pipeline runs.
pub open spec fn spec_endpoint_call<C: Callback>(
    e: Endpoint<C>,
    rest_path: Seq<char>,
    st: StateV<C>,
    req: Request,
) -> OutV<C> {
    if req.method != e.method {
        OutV { state: st, result: Err(spec_not_match()) }
    } else {
        match spec_match_at(e.path.view(), 0, rest_path, 0, true) {
            None => OutV { state: st, result: Err(spec_not_match()) },
            Some((consumed, caps)) => {
                let st2 = StateV { params: spec_apply_captures(st.params, caps, 0), ..st };
                spec_endpoint_pipeline(e, st2, req)
            },
        }
    }
}

/// The remaining path after a plain prefix: present when the prefix's
/// characters lead the path and end it or sit on a segment boundary; one
/// leading slash of the remainder is stripped.
pub open spec fn spec_strip_prefix(rest_path: Seq<char>, prefix: Seq<char>) -> Option<Seq<char>> {
    if prefix.is_prefix_of(rest_path) && (rest_path.len() == prefix.len() || rest_path[prefix.len() as int]
        == '/') {
        Some(spec_normalize(rest_path.skip(prefix.len() as int)))
    } else {
        None
    }
}

/// The media of the first Accept value naming this vendor and version, if
/// any does.
pub open spec fn spec_find_accept(
    items: Seq<String>,
    j: int,
    vendor: Seq<char>,
    version: Seq<char>,
) -> Option<MediaV>
    decreases items.len() - j,
    when 0 <= j <= items.len()
{
    if j == items.len() {
        None
    } else {
        match Media::spec_from_vendor(items[j]@) {
            Some(m) => if m.vendor == vendor && m.version == Some(version) {
                Some(m)
            } else {
                spec_find_accept(items, j + 1, vendor, version)
            },
            None => spec_find_accept(items, j + 1, vendor, version),
        }
    }
}

/// The media taken from the request when no version constraint fixed one:
/// the first Accept value's classification, or the default when the
/// header is absent or empty.
pub open spec fn spec_extract_media(req: Request) -> MediaV {
    match req.accept {
        Some(items) => if items@.len() > 0 {
            MediaV { vendor: "default"@, version: None, param: None, format: spec_classify(items@[0]@) }
        } else {
            spec_default_media()
        },
        None => spec_default_media(),
    }
}

/// An Api node's answer: strip the prefix, resolve the version constraint
/// by its strategy, settle the media, push its callbacks onto the
/// ancestor stack, and try the children in order.
pub open spec fn spec_api_node_call<C: Callback, F: ErrorFormatter>(
    a: Api<C, F>,
    rest_path: Seq<char>,
    st: StateV<C>,
    req: Request,
) -> OutV<C>
    decreases a, 0int, 0int,
{
    let stripped: Option<Seq<char>> = match a.prefix {
        Some(prefix) => spec_strip_prefix(rest_path, prefix@),
        None => Some(rest_path),
    };
    if stripped is None {
        OutV { state: st, result: Err(spec_not_match()) }
    } else {
        let rest1 = stripped->0;
        let versioned: Option<(Seq<char>, Option<MediaV>)> = match a.version {
            None => Some((rest1, None)),
            Some(ver) => match ver.versioning {
                Versioning::Path => match spec_strip_prefix(rest1, ver.version@) {
                    Some(rest2) => Some((rest2, None)),
                    None => None,
                },
                Versioning::Param(name) => {
                    if spec_has_key(st.params, name@) && spec_lookup(st.params, name@) == (
                    JsonV::Str(ver.version@)) {
                        Some((rest1, None))
                    } else {
                        None
                    }
                },
                Versioning::AcceptHeader(vendor) => match req.accept {
                    None => None,
                    Some(items) => match spec_find_accept(items@, 0, vendor@, ver.version@) {
                        Some(m) => Some((rest1, Some(m))),
                        None => None,
                    },
                },
            },
        };
        match versioned {
            None => OutV { state: st, result: Err(spec_not_match()) },
            Some((rest2, resolved)) => {
                let media2 = match resolved {
                    Some(m) => m,
                    None => spec_extract_media(req),
                };
                let st2 = StateV {
                    media: media2,
                    parents: st.parents.push(a.callbacks),
                    ..st
                };
                spec_dispatch(a.handlers@, 0, rest2, st2, req)
            },
        }
    }
}

/// A namespace's answer: match its pattern against the remaining path,
/// put the captures in the bag, validate its schema once, push its
/// callbacks, and hand the unmatched suffix to the children in order.
pub open spec fn spec_namespace_call<C: Callback, F: ErrorFormatter>(
    ns: Namespace<C, F>,
    rest_path: Seq<char>,
    st: StateV<C>,
    req: Request,
) -> OutV<C>
    decreases ns, 0int, 0int,
{
    match spec_match_at(ns.path.view(), 0, rest_path, 0, false) {
        None => OutV { state: st, result: Err(spec_not_match()) },
        Some((consumed, caps)) => {
            let params2 = spec_apply_captures(st.params, caps, 0);
            let rest2 = spec_normalize(rest_path.skip(consumed));
            let (params3, reasons): (ParamsV, Seq<crate::errors::ReasonV>) = match ns.coercer {
                Some(schema) => spec_validate(schema.rules@, 0, params2, Seq::empty()),
                None => (params2, Seq::empty()),
            };
            let st2 = StateV { params: params3, ..st };
            if reasons.len() > 0 {
                OutV {
                    state: st2,
                    result: Err(ErrRespV { error: ErrV::Validation(reasons), response: None }),
                }
            } else {
                let st3 = StateV { parents: st2.parents.push(ns.callbacks), ..st2 };
                spec_dispatch(ns.handlers@, 0, rest2, st3, req)
            }
        },
    }
}

/// Any node's answer to a request.
pub open spec fn spec_node_call<C: Callback, F: ErrorFormatter>(
    n: ApiHandler<C, F>,
    rest_path: Seq<char>,
    st: StateV<C>,
    req: Request,
) -> OutV<C>
    decreases n, 1int, 0int,
{
    match n {
        ApiHandler::Api(a) => spec_api_node_call(a, rest_path, st, req),
        ApiHandler::Namespace(ns) => spec_namespace_call(ns, rest_path, st, req),
        ApiHandler::Endpoint(e) => spec_endpoint_call(e, rest_path, st, req),
    }
}

/// The children from `i` on, tried in mount order: a child answering
/// `NotMatch` passes the turn to the next, any other outcome is final; an
/// empty remainder of children is `NotMatch`.
pub open spec fn spec_dispatch<C: Callback, F: ErrorFormatter>(
    handlers: Seq<ApiHandler<C, F>>,
    i: int,
    rest_path: Seq<char>,
    st: StateV<C>,
    req: Request,
) -> OutV<C>
    decreases handlers, 0int, (handlers.len() - i),
    when 0 <= i <= handlers.len()
{
    if i == handlers.len() {
        OutV { state: st, result: Err(spec_not_match()) }
    } else {
        let out = spec_node_call(handlers[i], rest_path, st, req);
        match out.result {
            Err(e) => if e.error is NotMatch {
                spec_dispatch(handlers, i + 1, rest_path, out.state, req)
            } else {
                out
            },
            Ok(_) => out,
        }
    }
}

/// What an Api's custom formatter chain, innermost registration first,
/// makes of an error: the first response wins.
pub open spec fn spec_format_chain<F: ErrorFormatter>(
    formatters: Seq<F>,
    j: int,
    error: ErrV,
    media: MediaV,
) -> Option<RespV>
    decreases formatters.len() - j,
    when 0 <= j <= formatters.len()
{
    if j == formatters.len() {
        None
    } else {
        match formatters[j].on_format(error, media) {
            Some(resp) => Some(resp),
            None => spec_format_chain(formatters, j + 1, error, media),
        }
    }
}

/// Runs one callback list in order against the client; the first failure
/// returns at once.
fn run_list<C: Callback>(cbs: &Vec<C>, client: &mut Client, params: &Params) -> (r: Result<
    (),
    ErrorResponse,
>)
    ensures
        ({
            let (c2, r2) = spec_run_list(cbs@, 0, old(client).view(), params.view());
            &&& final(client).view() == c2
            &&& match r {
                Ok(()) => r2 is Ok,
                Err(e) => r2 == Result::<(), ErrRespV>::Err(e.view()),
            }
        }),
{
    let ghost start = client.view();
    let mut j: usize = 0;
    while j < cbs.len()
        invariant
            0 <= j <= cbs@.len(),
            spec_run_list(cbs@, j as int, client.view(), params.view()) == spec_run_list(
                cbs@,
                0,
                start,
                params.view(),
            ),
            start == old(client).view(),
        decreases cbs@.len() - j,
    {
        match cbs[j].call(client, params) {
            Ok(()) => {},
            Err(e) => {
                return Err(e);
            },
        }
        j += 1;
    }
    Ok(())
}

/// Runs one phase's callbacks of every ancestor, outermost first; the
/// first failure returns at once.
fn run_phase<C: Callback>(
    parents: &Vec<&CallbackList<C>>,
    phase: Phase,
    client: &mut Client,
    params: &Params,
) -> (r: Result<(), ErrorResponse>)
    ensures
        ({
            let (c2, r2) = spec_run_phase(
                parents_view(parents@),
                0,
                phase,
                old(client).view(),
                params.view(),
            );
            &&& final(client).view() == c2
            &&& match r {
                Ok(()) => r2 is Ok,
                Err(e) => r2 == Result::<(), ErrRespV>::Err(e.view()),
            }
        }),
{
    let ghost start = client.view();
    let ghost pv = parents_view(parents@);
    let mut pi: usize = 0;
    while pi < parents.len()
        invariant
            0 <= pi <= parents@.len(),
            pv == parents_view(parents@),
            pv.len() == parents@.len(),
            spec_run_phase(pv, pi as int, phase, client.view(), params.view()) == spec_run_phase(
                pv,
                0,
                phase,
                start,
                params.view(),
            ),
            start == old(client).view(),
        decreases parents@.len() - pi,
    {
        let list: &Vec<C> = match phase {
            Phase::Before => &parents[pi].before,
            Phase::BeforeValidation => &parents[pi].before_validation,
            Phase::AfterValidation => &parents[pi].after_validation,
            Phase::After => &parents[pi].after,
        };
        proof {
            assert(pv[pi as int] == *parents@[pi as int]);
            assert(list@ == spec_phase_list(pv[pi as int], phase));
        }
        match run_list(list, client, params) {
            Ok(()) => {},
            Err(e) => {
                return Err(e);
            },
        }
        pi += 1;
    }
    Ok(())
}

impl<C: Callback> Endpoint<C> {
    /// A leaf bound to `method` and an end-anchored pattern, with no
    /// schema and no handler yet.
    pub fn new(method: Method, path: &str) -> (r: Endpoint<C>)
        ensures
            r.method == method,
            r.path.path@ == path@,
            r.path.view() == crate::path::spec_parse(path@, 0),
            crate::path::view_strings(r.path.params@) == crate::path::spec_param_names(
                crate::path::spec_parse(path@, 0),
            ),
            r.path.endpoint,
            r.summary is None,
            r.desc is None,
            r.coercer is None,
            r.handler is None,
    {
        let parsed = match Path::parse(path, true) {
            Ok(p) => p,
            Err(_) => vstd::pervasive::unreached(),
        };
        Endpoint {
            method,
            path: parsed,
            summary: None,
            desc: None,
            coercer: None,
            handler: None,
        }
    }

    /// Runs the full per-request pipeline against the already-matched
    /// bag.
    pub fn call_endpoint(&self, params: &mut Params, req: &Request, info: &CallInfo<C>) -> (r:
        Result<Response, ErrorResponse>)
        requires
            self.handler is Some,
        ensures
            ({
                let st0 = StateV {
                    params: old(params).view(),
                    media: info.media.view(),
                    parents: parents_view(info.parents@),
                };
                let out = spec_endpoint_pipeline(*self, st0, *req);
                &&& final(params).view() == out.state.params
                &&& match r {
                    Ok(resp) => out.result == Result::<RespV, ErrRespV>::Ok(resp.view()),
                    Err(e) => out.result == Result::<RespV, ErrRespV>::Err(e.view()),
                }
            }),
    {
        let mut client = Client::new(info.media.duplicate());
        match run_phase(&info.parents, Phase::Before, &mut client, params) {
            Ok(()) => {},
            Err(e) => {
                return Err(e);
            },
        }
        match run_phase(&info.parents, Phase::BeforeValidation, &mut client, params) {
            Ok(()) => {},
            Err(e) => {
                return Err(e);
            },
        }
        match &self.coercer {
            Some(schema) => {
                match schema.validate(params) {
                    Ok(()) => {},
                    Err(reasons) => {
                        return Err(ErrorResponse::new(ErrorKind::Validation(reasons)));
                    },
                }
            },
            None => {},
        }
        match run_phase(&info.parents, Phase::AfterValidation, &mut client, params) {
            Ok(()) => {},
            Err(e) => {
                return Err(e);
            },
        }
        match &self.handler {
            Some(h) => {
                match h.call(&mut client, params) {
                    Ok(()) => {},
                    Err(e) => {
                        return Err(e);
                    },
                }
            },
            None => {
                vstd::pervasive::unreached::<()>()
            },
        }
        match run_phase(&info.parents, Phase::After, &mut client, params) {
            Ok(()) => {},
            Err(e) => {
                return Err(e);
            },
        }
        Ok(client.move_response())
    }

    /// An endpoint's answer to a request: `NotMatch` unless method and
    /// whole-path pattern agree; then captures are written into the bag
    /// and the pipeline runs.
    pub fn api_call(&self, rest_path: &str, params: &mut Params, req: &Request, info: &CallInfo<
        C,
    >) -> (r: Result<Response, ErrorResponse>)
        requires
            self.handler is Some,
            self.path.endpoint,
        ensures
            ({
                let st0 = StateV {
                    params: old(params).view(),
                    media: info.media.view(),
                    parents: parents_view(info.parents@),
                };
                let out = spec_endpoint_call(*self, rest_path@, st0, *req);
                &&& final(params).view() == out.state.params
                &&& match r {
                    Ok(resp) => out.result == Result::<RespV, ErrRespV>::Ok(resp.view()),
                    Err(e) => out.result == Result::<RespV, ErrRespV>::Err(e.view()),
                }
            }),
    {
        if req.method != self.method {
            return Err(ErrorResponse::new(ErrorKind::NotMatch));
        }
        let out = self.path.is_match(rest_path);
        match out {
            Some(m) => {
                self.path.apply_captures(params, &m.captures);
                let r = self.call_endpoint(params, req, info);
                proof {
                    let st0 = StateV {
                        params: old(params).view(),
                        media: info.media.view(),
                        parents: parents_view(info.parents@),
                    };
                    let st2 = StateV {
                        params: spec_apply_captures(st0.params, view_pairs(m.captures@), 0),
                        ..st0
                    };
                    assert(spec_endpoint_call(*self, rest_path@, st0, *req)
                        == spec_endpoint_pipeline(*self, st2, *req));
                }
                r
            },
            None => Err(ErrorResponse::new(ErrorKind::NotMatch)),
        }
    }
}

/// Well-formedness of a list reaches each of its nodes.
pub proof fn lemma_handlers_wf<C, F>(handlers: Seq<ApiHandler<C, F>>, j: int, i: int)
    requires
        0 <= j <= i < handlers.len(),
        handlers_wf(handlers, j),
    ensures
        node_wf(handlers[i]),
    decreases i - j,
{
    if j < i {
        lemma_handlers_wf(handlers, j + 1, i);
    }
}

/// The remaining path after a plain prefix, or `None` when the prefix is
/// absent or does not end on a segment boundary.
fn strip_prefix(rest_path: &str, prefix: &str) -> (r: Option<String>)
    ensures
        match r {
            Some(rest) => spec_strip_prefix(rest_path@, prefix@) == Some(rest@),
            None => spec_strip_prefix(rest_path@, prefix@) is None,
        },
{
    if !str_starts_with(rest_path, prefix) {
        return None;
    }
    let n = rest_path.unicode_len();
    let m = prefix.unicode_len();
    if n == m || rest_path.get_char(m) == '/' {
        let suffix = str_suffix(rest_path, m);
        let rest = crate::path::normalize(suffix.as_str()).to_owned();
        Some(rest)
    } else {
        None
    }
}

/// The first Accept value naming this vendor and version, parsed.
fn find_accept(items: &Vec<String>, vendor: &str, version: &str) -> (r: Option<Media>)
    ensures
        match r {
            Some(m) => spec_find_accept(items@, 0, vendor@, version@) == Some(m.view()),
            None => spec_find_accept(items@, 0, vendor@, version@) is None,
        },
{
    let mut j: usize = 0;
    while j < items.len()
        invariant
            0 <= j <= items@.len(),
            spec_find_accept(items@, j as int, vendor@, version@) == spec_find_accept(
                items@,
                0,
                vendor@,
                version@,
            ),
        decreases items@.len() - j,
    {
        match Media::from_vendor(items[j].as_str()) {
            Some(m) => {
                let version_matches = match &m.version {
                    Some(v) => str_eq(v.as_str(), version),
                    None => false,
                };
                if str_eq(m.vendor.as_str(), vendor) && version_matches {
                    return Some(m);
                }
            },
            None => {},
        }
        j += 1;
    }
    None
}

/// The media taken from the request when no version constraint fixed one.
pub fn extract_media(req: &Request) -> (r: Media)
    ensures
        r.view() == spec_extract_media(*req),
{
    match &req.accept {
        Some(items) => {
            if items.len() > 0 {
                Media::from_mime(items[0].as_str())
            } else {
                Media::default()
            }
        },
        None => Media::default(),
    }
}

/// Tries the children in mount order: the first whose answer is not
/// `NotMatch` decides; when all decline, the caller's answer is
/// `NotMatch`.
pub fn call_handlers<'a, C: Callback, F: ErrorFormatter>(
    handlers: &'a Vec<ApiHandler<C, F>>,
    rest_path: &str,
    params: &mut Params,
    req: &Request,
    info: &mut CallInfo<'a, C>,
) -> (r: Result<Response, ErrorResponse>)
    requires
        handlers_wf(handlers@, 0),
    ensures
        ({
            let st0 = StateV {
                params: old(params).view(),
                media: old(info).media.view(),
                parents: parents_view(old(info).parents@),
            };
            let out = spec_dispatch(handlers@, 0, rest_path@, st0, *req);
            &&& final(params).view() == out.state.params
            &&& final(info).media.view() == out.state.media
            &&& parents_view(final(info).parents@) == out.state.parents
            &&& match r {
                Ok(resp) => out.result == Result::<RespV, ErrRespV>::Ok(resp.view()),
                Err(e) => out.result == Result::<RespV, ErrRespV>::Err(e.view()),
            }
        }),
    decreases *handlers, 1int,
{
    let ghost st0 = StateV {
        params: params.view(),
        media: info.media.view(),
        parents: parents_view(info.parents@),
    };
    let mut i: usize = 0;
    loop
        invariant
            0 <= i <= handlers@.len(),
            handlers_wf(handlers@, 0),
            spec_dispatch(
                handlers@,
                i as int,
                rest_path@,
                StateV {
                    params: params.view(),
                    media: info.media.view(),
                    parents: parents_view(info.parents@),
                },
                *req,
            ) == spec_dispatch(handlers@, 0, rest_path@, st0, *req),
            st0 == (StateV {
                params: old(params).view(),
                media: old(info).media.view(),
                parents: parents_view(old(info).parents@),
            }),
        decreases handlers@.len() - i,
    {
        if i == handlers.len() {
            return Err(ErrorResponse::new(ErrorKind::NotMatch));
        }
        proof {
            lemma_handlers_wf(handlers@, 0, i as int);
            assert(decreases_to!(*handlers => handlers@));
            assert(decreases_to!(handlers@ => handlers@[i as int]));
        }
        match handlers[i].api_call(rest_path, params, req, info) {
            Ok(resp) => {
                return Ok(resp);
            },
            Err(e) => {
                let keep_trying = match &e.error {
                    ErrorKind::NotMatch => true,
                    _ => false,
                };
                if !keep_trying {
                    return Err(e);
                }
            },
        }
        i += 1;
    }
}

impl<C: Callback, F: ErrorFormatter> ApiHandler<C, F> {
    /// The node's answer to a request: an Api strips prefix and version, a
    /// namespace consumes its matched prefix, an endpoint runs the
    /// pipeline; `NotMatch` sends the caller to the next sibling.
    pub fn api_call<'a>(
        &'a self,
        rest_path: &str,
        params: &mut Params,
        req: &Request,
        info: &mut CallInfo<'a, C>,
    ) -> (r: Result<Response, ErrorResponse>)
        requires
            node_wf(*self),
        ensures
            ({
                let st0 = StateV {
                    params: old(params).view(),
                    media: old(info).media.view(),
                    parents: parents_view(old(info).parents@),
                };
                let out = spec_node_call(*self, rest_path@, st0, *req);
                &&& final(params).view() == out.state.params
                &&& final(info).media.view() == out.state.media
                &&& parents_view(final(info).parents@) == out.state.parents
                &&& match r {
                    Ok(resp) => out.result == Result::<RespV, ErrRespV>::Ok(resp.view()),
                    Err(e) => out.result == Result::<RespV, ErrRespV>::Err(e.view()),
                }
            }),
        decreases *self, 2int,
    {
        match self {
            ApiHandler::Api(a) => {
                proof {
                    assert(decreases_to!(*self => self->Api_0));
                }
                a.api_call(rest_path, params, req, info)
            },
            ApiHandler::Namespace(ns) => {
                proof {
                    assert(decreases_to!(*self => self->Namespace_0));
                }
                ns.api_call(rest_path, params, req, info)
            },
            ApiHandler::Endpoint(e) => e.api_call(rest_path, params, req, &*info),
        }
    }
}

impl<C: Callback, F: ErrorFormatter> Namespace<C, F> {
    /// The namespace's answer: match its pattern, write the captures,
    /// validate its schema once, push its callbacks, and delegate the
    /// unmatched suffix.
    pub fn api_call<'a>(
        &'a self,
        rest_path: &str,
        params: &mut Params,
        req: &Request,
        info: &mut CallInfo<'a, C>,
    ) -> (r: Result<Response, ErrorResponse>)
        requires
            !self.path.endpoint,
            handlers_wf(self.handlers@, 0),
        ensures
            ({
                let st0 = StateV {
                    params: old(params).view(),
                    media: old(info).media.view(),
                    parents: parents_view(old(info).parents@),
                };
                let out = spec_namespace_call(*self, rest_path@, st0, *req);
                &&& final(params).view() == out.state.params
                &&& final(info).media.view() == out.state.media
                &&& parents_view(final(info).parents@) == out.state.parents
                &&& match r {
                    Ok(resp) => out.result == Result::<RespV, ErrRespV>::Ok(resp.view()),
                    Err(e) => out.result == Result::<RespV, ErrRespV>::Err(e.view()),
                }
            }),
        decreases *self, 1int,
    {
        let matched = self.path.is_match(rest_path);
        match matched {
            None => Err(ErrorResponse::new(ErrorKind::NotMatch)),
            Some(m) => {
                self.path.apply_captures(params, &m.captures);
                let suffix = str_suffix(rest_path, m.consumed);
                let rest2 = crate::path::normalize(suffix.as_str());
                match &self.coercer {
                    Some(schema) => {
                        match schema.validate(params) {
                            Ok(()) => {},
                            Err(reasons) => {
                                return Err(ErrorResponse::new(ErrorKind::Validation(reasons)));
                            },
                        }
                    },
                    None => {},
                }
                info.parents.push(&self.callbacks);
                proof {
                    assert(decreases_to!(*self => self.handlers));
                    assert(parents_view(info.parents@) =~= parents_view(
                        old(info).parents@,
                    ).push(self.callbacks));
                }
                call_handlers(&self.handlers, rest2, params, req, info)
            },
        }
    }
}

impl<C: Callback, F: ErrorFormatter> Api<C, F> {
    /// An Api with nothing configured: no prefix, no version constraint,
    /// no children, no callbacks, no formatters.
    pub fn new() -> (r: Api<C, F>)
        ensures
            r.prefix is None,
            r.version is None,
            r.handlers@ =~= Seq::<ApiHandler<C, F>>::empty(),
            r.callbacks.before@ =~= Seq::<C>::empty(),
            r.callbacks.before_validation@ =~= Seq::<C>::empty(),
            r.callbacks.after_validation@ =~= Seq::<C>::empty(),
            r.callbacks.after@ =~= Seq::<C>::empty(),
            r.error_formatters@ =~= Seq::<F>::empty(),
            r.consumes is None,
            r.produces is None,
    {
        Api {
            prefix: None,
            version: None,
            handlers: Vec::new(),
            callbacks: CallbackList::new(),
            error_formatters: Vec::new(),
            consumes: None,
            produces: None,
        }
    }

    /// Walks this Api's custom error formatters in registration order; the
    /// first response wins.
    pub fn handle_error(&self, error: &ErrorKind, media: &Media) -> (r: Option<Response>)
        ensures
            match r {
                Some(resp) => spec_format_chain(
                    self.error_formatters@,
                    0,
                    view_error(*error),
                    media.view(),
                ) == Some(resp.view()),
                None => spec_format_chain(
                    self.error_formatters@,
                    0,
                    view_error(*error),
                    media.view(),
                ) is None,
            },
    {
        let mut j: usize = 0;
        while j < self.error_formatters.len()
            invariant
                0 <= j <= self.error_formatters@.len(),
                spec_format_chain(
                    self.error_formatters@,
                    j as int,
                    view_error(*error),
                    media.view(),
                ) == spec_format_chain(
                    self.error_formatters@,
                    0,
                    view_error(*error),
                    media.view(),
                ),
            decreases self.error_formatters@.len() - j,
        {
            match self.error_formatters[j].format(error, media) {
                Some(resp) => {
                    return Some(resp);
                },
                None => {},
            }
            j += 1;
        }
        None
    }

    /// The Api's answer: strip the prefix, resolve the version constraint,
    /// settle the media, push its callbacks, and try the children.
    pub fn api_call<'a>(
        &'a self,
        rest_path: &str,
        params: &mut Params,
        req: &Request,
        info: &mut CallInfo<'a, C>,
    ) -> (r: Result<Response, ErrorResponse>)
        requires
            handlers_wf(self.handlers@, 0),
        ensures
            ({
                let st0 = StateV {
                    params: old(params).view(),
                    media: old(info).media.view(),
                    parents: parents_view(old(info).parents@),
                };
                let out = spec_api_node_call(*self, rest_path@, st0, *req);
                &&& final(params).view() == out.state.params
                &&& final(info).media.view() == out.state.media
                &&& parents_view(final(info).parents@) == out.state.parents
                &&& match r {
                    Ok(resp) => out.result == Result::<RespV, ErrRespV>::Ok(resp.view()),
                    Err(e) => out.result == Result::<RespV, ErrRespV>::Err(e.view()),
                }
            }),
        decreases *self, 1int,
    {
        let rest1: String = match &self.prefix {
            Some(prefix) => {
                match strip_prefix(rest_path, prefix.as_str()) {
                    Some(rest) => rest,
                    None => {
                        return Err(ErrorResponse::new(ErrorKind::NotMatch));
                    },
                }
            },
            None => rest_path.to_owned(),
        };
        let mut resolved: Option<Media> = None;
        let rest2: String = match &self.version {
            None => rest1,
            Some(ver) => {
                match &ver.versioning {
                    Versioning::Path => {
                        match strip_prefix(rest1.as_str(), ver.version.as_str()) {
                            Some(rest) => rest,
                            None => {
                                return Err(ErrorResponse::new(ErrorKind::NotMatch));
                            },
                        }
                    },
                    Versioning::Param(name) => {
                        let ok = match params.find(name.as_str()) {
                            Some(JsonValue::Str(s)) => str_eq(s.as_str(), ver.version.as_str()),
                            _ => false,
                        };
                        if !ok {
                            return Err(ErrorResponse::new(ErrorKind::NotMatch));
                        }
                        rest1
                    },
                    Versioning::AcceptHeader(vendor) => {
                        match &req.accept {
                            None => {
                                return Err(ErrorResponse::new(ErrorKind::NotMatch));
                            },
                            Some(items) => {
                                match find_accept(
                                    items,
                                    vendor.as_str(),
                                    ver.version.as_str(),
                                ) {
                                    Some(m) => {
                                        resolved = Some(m);
                                        rest1
                                    },
                                    None => {
                                        return Err(ErrorResponse::new(ErrorKind::NotMatch));
                                    },
                                }
                            },
                        }
                    },
                }
            },
        };
        info.media = match resolved {
            Some(m) => m,
            None => extract_media(req),
        };
        info.parents.push(&self.callbacks);
        proof {
            assert(decreases_to!(*self => self.handlers));
            assert(parents_view(info.parents@) =~= parents_view(old(info).parents@).push(
                self.callbacks,
            ));
        }
        call_handlers(&self.handlers, rest2.as_str(), params, req, info)
    }
}

} // verus!
