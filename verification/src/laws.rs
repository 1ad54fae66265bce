//! The dispatch laws, stated once and proved against the spec model that
//! every executable contract in the crate is pinned to.
use vstd::prelude::*;

verus! {

use crate::app::{Application, spec_app_call};
use crate::errors::ErrV;
use crate::framework::{
    ApiHandler,
    Callback,
    ErrorFormatter,
    Namespace,
    StateV,
    spec_dispatch,
    spec_namespace_call,
    spec_node_call,
};
use crate::http::{Request, RespV};
use crate::path::{spec_apply_captures, spec_match_at, spec_normalize};
use crate::schema::spec_validate;

/// Sibling ordering: when, of two mounted handlers, the first answers
/// `NotMatch`, dispatch hands the request to the second — in the state the
/// first left behind — and returns the second's outcome whenever that
/// outcome is not itself `NotMatch`.
pub proof fn lemma_sibling_ordering<C: Callback, F: ErrorFormatter>(
    h0: ApiHandler<C, F>,
    h1: ApiHandler<C, F>,
    rest_path: Seq<char>,
    st: StateV<C>,
    req: Request,
)
    requires
        ({
            let out0 = spec_node_call(h0, rest_path, st, req);
            out0.result is Err && out0.result->Err_0.error is NotMatch
        }),
        ({
            let out0 = spec_node_call(h0, rest_path, st, req);
            let out1 = spec_node_call(h1, rest_path, out0.state, req);
            !(out1.result is Err && out1.result->Err_0.error is NotMatch)
        }),
    ensures
        ({
            let out0 = spec_node_call(h0, rest_path, st, req);
            spec_dispatch(seq![h0, h1], 0, rest_path, st, req) == spec_node_call(
                h1,
                rest_path,
                out0.state,
                req,
            )
        }),
{
    let hs = seq![h0, h1];
    assert(hs[0] == h0);
    assert(hs[1] == h1);
    let out0 = spec_node_call(h0, rest_path, st, req);
    let out1 = spec_node_call(h1, rest_path, out0.state, req);
    assert(spec_dispatch(hs, 0, rest_path, st, req) == spec_dispatch(
        hs,
        1,
        rest_path,
        out0.state,
        req,
    ));
    assert(spec_dispatch(hs, 1, rest_path, out0.state, req) == out1);
}

/// Prefix consumption: a namespace whose pattern matches the remaining
/// path, and whose schema (if any) passes, hands its children exactly the
/// suffix after the matched prefix, normalized — never the whole path —
/// with its callbacks pushed onto the ancestor stack.
pub proof fn lemma_prefix_consumption<C: Callback, F: ErrorFormatter>(
    ns: Namespace<C, F>,
    rest_path: Seq<char>,
    st: StateV<C>,
    req: Request,
)
    requires
        spec_match_at(ns.path.view(), 0, rest_path, 0, false) is Some,
        ({
            let (consumed, caps) = spec_match_at(ns.path.view(), 0, rest_path, 0, false)->0;
            let params2 = spec_apply_captures(st.params, caps, 0);
            match ns.coercer {
                Some(schema) => spec_validate(
                    schema.rules@,
                    0,
                    params2,
                    Seq::empty(),
                ).1.len() == 0,
                None => true,
            }
        }),
    ensures
        ({
            let (consumed, caps) = spec_match_at(ns.path.view(), 0, rest_path, 0, false)->0;
            let params2 = spec_apply_captures(st.params, caps, 0);
            let params3 = match ns.coercer {
                Some(schema) => spec_validate(schema.rules@, 0, params2, Seq::empty()).0,
                None => params2,
            };
            spec_namespace_call(ns, rest_path, st, req) == spec_dispatch(
                ns.handlers@,
                0,
                spec_normalize(rest_path.skip(consumed)),
                StateV {
                    params: params3,
                    media: st.media,
                    parents: st.parents.push(ns.callbacks),
                },
                req,
            )
        }),
{
}

/// Idempotence: the outcome of a whole call is a function of the
/// application and the request alone — any two results that
/// `Application::call`'s contract admits for the same application and
/// request are one and the same, status, headers and body included.
pub proof fn lemma_idempotent<C: Callback, F: ErrorFormatter>(
    app: Application<C, F>,
    req: Request,
    r1: Result<RespV, (ErrV, RespV)>,
    r2: Result<RespV, (ErrV, RespV)>,
)
    requires
        r1 == spec_app_call(app, req),
        r2 == spec_app_call(app, req),
    ensures
        r1 == r2,
{
}

} // verus!
