//! A verified request-routing and dispatch engine for nested API trees.
//!
//! An application owns a root [`framework::Api`]; an Api holds namespaces and
//! endpoints, each reachable through a path pattern, an HTTP method, an
//! optional version constraint and content negotiation.  Dispatch walks the
//! tree in mount order, backtracking on `NotMatch`, runs every ancestor's
//! callbacks around validation and the handler, and turns failures into
//! responses through a formatter chain.  Every step of that pipeline is
//! specified and proved here; transport I/O stays outside.
use vstd::prelude::*;

pub mod http;
pub mod strutil;
pub mod json;
pub mod params;
pub mod codec;
pub mod path;
pub mod media;
pub mod errors;
pub mod schema;
pub mod client;
pub mod query;
pub mod framework;
pub mod nesting;
pub mod jsonparse;
pub mod app;
pub mod laws;

verus! {

use crate::json::{JsonValue, view_json, JsonV};
use crate::params::{Params, ParamsV, spec_has_key, spec_lookup, spec_insert};

/// An open extension bag: request- or application-scoped values keyed by
/// name, for cross-cutting concerns outside the dispatch core.
pub struct Extensions {
    pub entries: Params,
}

impl Extensions {
    /// The shadow of the extension bag.
    pub open spec fn view(&self) -> ParamsV {
        self.entries.view()
    }

    /// An empty extension bag.
    pub fn new() -> (r: Extensions)
        ensures
            r.view() =~= Seq::<(Seq<char>, JsonV)>::empty(),
    {
        Extensions { entries: Params::new() }
    }
}

/// What a type with an extension bag offers: reading and writing keyed
/// values.
pub trait Extensible {
    /// The shadow of the carried extension bag.
    spec fn spec_ext(&self) -> ParamsV;

    /// The value stored under `key`, when one is there.
    fn ext_find(&self, key: &str) -> (r: Option<&JsonValue>)
        ensures
            match r {
                Some(v) => spec_has_key(self.spec_ext(), key@) && view_json(*v) == spec_lookup(
                    self.spec_ext(),
                    key@,
                ),
                None => !spec_has_key(self.spec_ext(), key@),
            },
    ;

    /// Writes `key = value`, replacing any value already under that key.
    fn ext_insert(&mut self, key: String, value: JsonValue)
        ensures
            final(self).spec_ext() == spec_insert(old(self).spec_ext(), key@, view_json(value)),
    ;
}

} // verus!
