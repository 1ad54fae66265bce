//! Building the tree: the `Node` capability every container implements,
//! the `Nesting` registration surface over it, and closure builders in the
//! style of the handler framework — mounting children under the stock
//! methods, grouping namespaces, and registering callbacks.  All of it is
//! sugar over pushing children and callbacks in order; dispatch semantics
//! live in the dispatch functions alone.
use vstd::prelude::*;

verus! {

use crate::framework::{
    Api,
    ApiHandler,
    Callback,
    CallbackList,
    Endpoint,
    EndpointHandlerPresent,
    ErrorFormatter,
    Namespace,
    Version,
    Versioning,
};
use crate::http::Method;
use crate::path::{Path, spec_parse};
use crate::schema::Schema;

/// What every container node exposes: its children and its four callback
/// lists, each growable in registration order.
pub trait Node<C: Callback, F: ErrorFormatter>: Sized {
    /// The children mounted so far, in order.
    spec fn spec_handlers(&self) -> Seq<ApiHandler<C, F>>;

    /// The callback lists registered so far.
    spec fn spec_callbacks(&self) -> CallbackList<C>;

    /// Everything of the node except children and callbacks.
    spec fn spec_rest(&self) -> Self;

    /// Appends a child.
    fn push_handler(&mut self, child: ApiHandler<C, F>)
        ensures
            final(self).spec_handlers() == old(self).spec_handlers().push(child),
            final(self).spec_callbacks() == old(self).spec_callbacks(),
            final(self).spec_rest() == old(self).spec_rest(),
    ;

    /// Appends a before callback.
    fn push_before(&mut self, callback: C)
        ensures
            final(self).spec_handlers() == old(self).spec_handlers(),
            final(self).spec_callbacks().before@ == old(self).spec_callbacks().before@.push(
                callback,
            ),
            final(self).spec_callbacks().before_validation@ == old(
                self,
            ).spec_callbacks().before_validation@,
            final(self).spec_callbacks().after_validation@ == old(
                self,
            ).spec_callbacks().after_validation@,
            final(self).spec_callbacks().after@ == old(self).spec_callbacks().after@,
            final(self).spec_rest() == old(self).spec_rest(),
    ;

    /// Appends a before-validation callback.
    fn push_before_validation(&mut self, callback: C)
        ensures
            final(self).spec_handlers() == old(self).spec_handlers(),
            final(self).spec_callbacks().before@ == old(self).spec_callbacks().before@,
            final(self).spec_callbacks().before_validation@ == old(
                self,
            ).spec_callbacks().before_validation@.push(callback),
            final(self).spec_callbacks().after_validation@ == old(
                self,
            ).spec_callbacks().after_validation@,
            final(self).spec_callbacks().after@ == old(self).spec_callbacks().after@,
            final(self).spec_rest() == old(self).spec_rest(),
    ;

    /// Appends an after-validation callback.
    fn push_after_validation(&mut self, callback: C)
        ensures
            final(self).spec_handlers() == old(self).spec_handlers(),
            final(self).spec_callbacks().before@ == old(self).spec_callbacks().before@,
            final(self).spec_callbacks().before_validation@ == old(
                self,
            ).spec_callbacks().before_validation@,
            final(self).spec_callbacks().after_validation@ == old(
                self,
            ).spec_callbacks().after_validation@.push(callback),
            final(self).spec_callbacks().after@ == old(self).spec_callbacks().after@,
            final(self).spec_rest() == old(self).spec_rest(),
    ;

    /// Appends an after callback.
    fn push_after(&mut self, callback: C)
        ensures
            final(self).spec_handlers() == old(self).spec_handlers(),
            final(self).spec_callbacks().before@ == old(self).spec_callbacks().before@,
            final(self).spec_callbacks().before_validation@ == old(
                self,
            ).spec_callbacks().before_validation@,
            final(self).spec_callbacks().after_validation@ == old(
                self,
            ).spec_callbacks().after_validation@,
            final(self).spec_callbacks().after@ == old(self).spec_callbacks().after@.push(
                callback,
            ),
            final(self).spec_rest() == old(self).spec_rest(),
    ;
}

/// The registration surface shared by every container: mounting children
/// and registering callbacks, each list in registration order.
pub trait Nesting<C: Callback, F: ErrorFormatter>: Node<C, F> {
    /// Mounts a child node after the ones already there.
    fn mount(&mut self, edp: ApiHandler<C, F>)
        ensures
            final(self).spec_handlers() == old(self).spec_handlers().push(edp),
            final(self).spec_callbacks() == old(self).spec_callbacks(),
            final(self).spec_rest() == old(self).spec_rest(),
    {
        self.push_handler(edp);
    }

    /// Registers a before callback.
    fn before(&mut self, callback: C)
        ensures
            final(self).spec_handlers() == old(self).spec_handlers(),
            final(self).spec_callbacks().before@ == old(self).spec_callbacks().before@.push(
                callback,
            ),
            final(self).spec_rest() == old(self).spec_rest(),
    {
        self.push_before(callback);
    }

    /// Registers a before-validation callback.
    fn before_validation(&mut self, callback: C)
        ensures
            final(self).spec_handlers() == old(self).spec_handlers(),
            final(self).spec_callbacks().before_validation@ == old(
                self,
            ).spec_callbacks().before_validation@.push(callback),
            final(self).spec_rest() == old(self).spec_rest(),
    {
        self.push_before_validation(callback);
    }

    /// Registers an after-validation callback.
    fn after_validation(&mut self, callback: C)
        ensures
            final(self).spec_handlers() == old(self).spec_handlers(),
            final(self).spec_callbacks().after_validation@ == old(
                self,
            ).spec_callbacks().after_validation@.push(callback),
            final(self).spec_rest() == old(self).spec_rest(),
    {
        self.push_after_validation(callback);
    }

    /// Registers an after callback.
    fn after(&mut self, callback: C)
        ensures
            final(self).spec_handlers() == old(self).spec_handlers(),
            final(self).spec_callbacks().after@ == old(self).spec_callbacks().after@.push(
                callback,
            ),
            final(self).spec_rest() == old(self).spec_rest(),
    {
        self.push_after(callback);
    }

    /// Mounts a child namespace at `path`, built by the given builder.
    fn namespace<B: FnOnce(Namespace<C, F>) -> Namespace<C, F>>(&mut self, path: &str, builder: B)
        requires
            forall|ns: Namespace<C, F>| #[trigger] call_requires(builder, (ns,)),
        ensures
            final(self).spec_handlers().len() == old(self).spec_handlers().len() + 1,
            final(self).spec_handlers().drop_last() == old(self).spec_handlers(),
            final(self).spec_handlers().last() is Namespace,
            final(self).spec_callbacks() == old(self).spec_callbacks(),
            final(self).spec_rest() == old(self).spec_rest(),
            exists|ns0: Namespace<C, F>|
                {
                    &&& ns0.path.view() == spec_parse(path@, 0)
                    &&& !ns0.path.endpoint
                    &&& ns0.coercer is None
                    &&& ns0.handlers@ == Seq::<ApiHandler<C, F>>::empty()
                    &&& #[trigger] call_ensures(
                        builder,
                        (ns0,),
                        final(self).spec_handlers().last()->Namespace_0,
                    )
                },
    {
        self.mount(ApiHandler::Namespace(Namespace::build(path, builder)));
        proof {
            assert(final(self).spec_handlers().drop_last() =~= old(self).spec_handlers());
        }
    }

    /// Mounts a child namespace at `path`, built by the given builder.
    fn group<B: FnOnce(Namespace<C, F>) -> Namespace<C, F>>(&mut self, path: &str, builder: B)
        requires
            forall|ns: Namespace<C, F>| #[trigger] call_requires(builder, (ns,)),
        ensures
            final(self).spec_handlers().len() == old(self).spec_handlers().len() + 1,
            final(self).spec_handlers().drop_last() == old(self).spec_handlers(),
            final(self).spec_handlers().last() is Namespace,
            final(self).spec_callbacks() == old(self).spec_callbacks(),
            final(self).spec_rest() == old(self).spec_rest(),
            exists|ns0: Namespace<C, F>|
                {
                    &&& ns0.path.view() == spec_parse(path@, 0)
                    &&& !ns0.path.endpoint
                    &&& ns0.coercer is None
                    &&& ns0.handlers@ == Seq::<ApiHandler<C, F>>::empty()
                    &&& #[trigger] call_ensures(
                        builder,
                        (ns0,),
                        final(self).spec_handlers().last()->Namespace_0,
                    )
                },
    {
        self.mount(ApiHandler::Namespace(Namespace::build(path, builder)));
        proof {
            assert(final(self).spec_handlers().drop_last() =~= old(self).spec_handlers());
        }
    }

    /// Mounts a child namespace at `path`, built by the given builder.
    fn resource<B: FnOnce(Namespace<C, F>) -> Namespace<C, F>>(&mut self, path: &str, builder: B)
        requires
            forall|ns: Namespace<C, F>| #[trigger] call_requires(builder, (ns,)),
        ensures
            final(self).spec_handlers().len() == old(self).spec_handlers().len() + 1,
            final(self).spec_handlers().drop_last() == old(self).spec_handlers(),
            final(self).spec_handlers().last() is Namespace,
            final(self).spec_callbacks() == old(self).spec_callbacks(),
            final(self).spec_rest() == old(self).spec_rest(),
            exists|ns0: Namespace<C, F>|
                {
                    &&& ns0.path.view() == spec_parse(path@, 0)
                    &&& !ns0.path.endpoint
                    &&& ns0.coercer is None
                    &&& ns0.handlers@ == Seq::<ApiHandler<C, F>>::empty()
                    &&& #[trigger] call_ensures(
                        builder,
                        (ns0,),
                        final(self).spec_handlers().last()->Namespace_0,
                    )
                },
    {
        self.mount(ApiHandler::Namespace(Namespace::build(path, builder)));
        proof {
            assert(final(self).spec_handlers().drop_last() =~= old(self).spec_handlers());
        }
    }

    /// Mounts a child namespace at `path`, built by the given builder.
    fn resources<B: FnOnce(Namespace<C, F>) -> Namespace<C, F>>(&mut self, path: &str, builder: B)
        requires
            forall|ns: Namespace<C, F>| #[trigger] call_requires(builder, (ns,)),
        ensures
            final(self).spec_handlers().len() == old(self).spec_handlers().len() + 1,
            final(self).spec_handlers().drop_last() == old(self).spec_handlers(),
            final(self).spec_handlers().last() is Namespace,
            final(self).spec_callbacks() == old(self).spec_callbacks(),
            final(self).spec_rest() == old(self).spec_rest(),
            exists|ns0: Namespace<C, F>|
                {
                    &&& ns0.path.view() == spec_parse(path@, 0)
                    &&& !ns0.path.endpoint
                    &&& ns0.coercer is None
                    &&& ns0.handlers@ == Seq::<ApiHandler<C, F>>::empty()
                    &&& #[trigger] call_ensures(
                        builder,
                        (ns0,),
                        final(self).spec_handlers().last()->Namespace_0,
                    )
                },
    {
        self.mount(ApiHandler::Namespace(Namespace::build(path, builder)));
        proof {
            assert(final(self).spec_handlers().drop_last() =~= old(self).spec_handlers());
        }
    }

    /// Mounts a child namespace at `path`, built by the given builder.
    fn segment<B: FnOnce(Namespace<C, F>) -> Namespace<C, F>>(&mut self, path: &str, builder: B)
        requires
            forall|ns: Namespace<C, F>| #[trigger] call_requires(builder, (ns,)),
        ensures
            final(self).spec_handlers().len() == old(self).spec_handlers().len() + 1,
            final(self).spec_handlers().drop_last() == old(self).spec_handlers(),
            final(self).spec_handlers().last() is Namespace,
            final(self).spec_callbacks() == old(self).spec_callbacks(),
            final(self).spec_rest() == old(self).spec_rest(),
            exists|ns0: Namespace<C, F>|
                {
                    &&& ns0.path.view() == spec_parse(path@, 0)
                    &&& !ns0.path.endpoint
                    &&& ns0.coercer is None
                    &&& ns0.handlers@ == Seq::<ApiHandler<C, F>>::empty()
                    &&& #[trigger] call_ensures(
                        builder,
                        (ns0,),
                        final(self).spec_handlers().last()->Namespace_0,
                    )
                },
    {
        self.mount(ApiHandler::Namespace(Namespace::build(path, builder)));
        proof {
            assert(final(self).spec_handlers().drop_last() =~= old(self).spec_handlers());
        }
    }

    /// Mounts an endpoint for the corresponding method at `path`, built by
    /// the given builder, which must install a handler.
    fn get<B: FnOnce(Endpoint<C>) -> (Endpoint<C>, EndpointHandlerPresent)>(
        &mut self,
        path: &str,
        builder: B,
    )
        requires
            forall|e: Endpoint<C>| #[trigger] call_requires(builder, (e,)),
        ensures
            final(self).spec_handlers().len() == old(self).spec_handlers().len() + 1,
            final(self).spec_handlers().drop_last() == old(self).spec_handlers(),
            final(self).spec_handlers().last() is Endpoint,
            final(self).spec_callbacks() == old(self).spec_callbacks(),
            final(self).spec_rest() == old(self).spec_rest(),
            exists|e0: Endpoint<C>, present: EndpointHandlerPresent|
                {
                    &&& e0.method == Method::Get
                    &&& e0.path.view() == spec_parse(path@, 0)
                    &&& e0.path.endpoint
                    &&& e0.handler is None
                    &&& e0.coercer is None
                    &&& #[trigger] call_ensures(
                        builder,
                        (e0,),
                        (final(self).spec_handlers().last()->Endpoint_0, present),
                    )
                },
    {
        self.mount(ApiHandler::Endpoint(Endpoint::build(Method::Get, path, builder)));
        proof {
            assert(final(self).spec_handlers().drop_last() =~= old(self).spec_handlers());
        }
    }

    /// Mounts an endpoint for the corresponding method at `path`, built by
    /// the given builder, which must install a handler.
    fn post<B: FnOnce(Endpoint<C>) -> (Endpoint<C>, EndpointHandlerPresent)>(
        &mut self,
        path: &str,
        builder: B,
    )
        requires
            forall|e: Endpoint<C>| #[trigger] call_requires(builder, (e,)),
        ensures
            final(self).spec_handlers().len() == old(self).spec_handlers().len() + 1,
            final(self).spec_handlers().drop_last() == old(self).spec_handlers(),
            final(self).spec_handlers().last() is Endpoint,
            final(self).spec_callbacks() == old(self).spec_callbacks(),
            final(self).spec_rest() == old(self).spec_rest(),
            exists|e0: Endpoint<C>, present: EndpointHandlerPresent|
                {
                    &&& e0.method == Method::Post
                    &&& e0.path.view() == spec_parse(path@, 0)
                    &&& e0.path.endpoint
                    &&& e0.handler is None
                    &&& e0.coercer is None
                    &&& #[trigger] call_ensures(
                        builder,
                        (e0,),
                        (final(self).spec_handlers().last()->Endpoint_0, present),
                    )
                },
    {
        self.mount(ApiHandler::Endpoint(Endpoint::build(Method::Post, path, builder)));
        proof {
            assert(final(self).spec_handlers().drop_last() =~= old(self).spec_handlers());
        }
    }

    /// Mounts an endpoint for the corresponding method at `path`, built by
    /// the given builder, which must install a handler.
    fn put<B: FnOnce(Endpoint<C>) -> (Endpoint<C>, EndpointHandlerPresent)>(
        &mut self,
        path: &str,
        builder: B,
    )
        requires
            forall|e: Endpoint<C>| #[trigger] call_requires(builder, (e,)),
        ensures
            final(self).spec_handlers().len() == old(self).spec_handlers().len() + 1,
            final(self).spec_handlers().drop_last() == old(self).spec_handlers(),
            final(self).spec_handlers().last() is Endpoint,
            final(self).spec_callbacks() == old(self).spec_callbacks(),
            final(self).spec_rest() == old(self).spec_rest(),
            exists|e0: Endpoint<C>, present: EndpointHandlerPresent|
                {
                    &&& e0.method == Method::Put
                    &&& e0.path.view() == spec_parse(path@, 0)
                    &&& e0.path.endpoint
                    &&& e0.handler is None
                    &&& e0.coercer is None
                    &&& #[trigger] call_ensures(
                        builder,
                        (e0,),
                        (final(self).spec_handlers().last()->Endpoint_0, present),
                    )
                },
    {
        self.mount(ApiHandler::Endpoint(Endpoint::build(Method::Put, path, builder)));
        proof {
            assert(final(self).spec_handlers().drop_last() =~= old(self).spec_handlers());
        }
    }

    /// Mounts an endpoint for the corresponding method at `path`, built by
    /// the given builder, which must install a handler.
    fn delete<B: FnOnce(Endpoint<C>) -> (Endpoint<C>, EndpointHandlerPresent)>(
        &mut self,
        path: &str,
        builder: B,
    )
        requires
            forall|e: Endpoint<C>| #[trigger] call_requires(builder, (e,)),
        ensures
            final(self).spec_handlers().len() == old(self).spec_handlers().len() + 1,
            final(self).spec_handlers().drop_last() == old(self).spec_handlers(),
            final(self).spec_handlers().last() is Endpoint,
            final(self).spec_callbacks() == old(self).spec_callbacks(),
            final(self).spec_rest() == old(self).spec_rest(),
            exists|e0: Endpoint<C>, present: EndpointHandlerPresent|
                {
                    &&& e0.method == Method::Delete
                    &&& e0.path.view() == spec_parse(path@, 0)
                    &&& e0.path.endpoint
                    &&& e0.handler is None
                    &&& e0.coercer is None
                    &&& #[trigger] call_ensures(
                        builder,
                        (e0,),
                        (final(self).spec_handlers().last()->Endpoint_0, present),
                    )
                },
    {
        self.mount(ApiHandler::Endpoint(Endpoint::build(Method::Delete, path, builder)));
        proof {
            assert(final(self).spec_handlers().drop_last() =~= old(self).spec_handlers());
        }
    }

    /// Mounts an endpoint for the corresponding method at `path`, built by
    /// the given builder, which must install a handler.
    fn options<B: FnOnce(Endpoint<C>) -> (Endpoint<C>, EndpointHandlerPresent)>(
        &mut self,
        path: &str,
        builder: B,
    )
        requires
            forall|e: Endpoint<C>| #[trigger] call_requires(builder, (e,)),
        ensures
            final(self).spec_handlers().len() == old(self).spec_handlers().len() + 1,
            final(self).spec_handlers().drop_last() == old(self).spec_handlers(),
            final(self).spec_handlers().last() is Endpoint,
            final(self).spec_callbacks() == old(self).spec_callbacks(),
            final(self).spec_rest() == old(self).spec_rest(),
            exists|e0: Endpoint<C>, present: EndpointHandlerPresent|
                {
                    &&& e0.method == Method::Options
                    &&& e0.path.view() == spec_parse(path@, 0)
                    &&& e0.path.endpoint
                    &&& e0.handler is None
                    &&& e0.coercer is None
                    &&& #[trigger] call_ensures(
                        builder,
                        (e0,),
                        (final(self).spec_handlers().last()->Endpoint_0, present),
                    )
                },
    {
        self.mount(ApiHandler::Endpoint(Endpoint::build(Method::Options, path, builder)));
        proof {
            assert(final(self).spec_handlers().drop_last() =~= old(self).spec_handlers());
        }
    }

    /// Mounts an endpoint for the corresponding method at `path`, built by
    /// the given builder, which must install a handler.
    fn head<B: FnOnce(Endpoint<C>) -> (Endpoint<C>, EndpointHandlerPresent)>(
        &mut self,
        path: &str,
        builder: B,
    )
        requires
            forall|e: Endpoint<C>| #[trigger] call_requires(builder, (e,)),
        ensures
            final(self).spec_handlers().len() == old(self).spec_handlers().len() + 1,
            final(self).spec_handlers().drop_last() == old(self).spec_handlers(),
            final(self).spec_handlers().last() is Endpoint,
            final(self).spec_callbacks() == old(self).spec_callbacks(),
            final(self).spec_rest() == old(self).spec_rest(),
            exists|e0: Endpoint<C>, present: EndpointHandlerPresent|
                {
                    &&& e0.method == Method::Head
                    &&& e0.path.view() == spec_parse(path@, 0)
                    &&& e0.path.endpoint
                    &&& e0.handler is None
                    &&& e0.coercer is None
                    &&& #[trigger] call_ensures(
                        builder,
                        (e0,),
                        (final(self).spec_handlers().last()->Endpoint_0, present),
                    )
                },
    {
        self.mount(ApiHandler::Endpoint(Endpoint::build(Method::Head, path, builder)));
        proof {
            assert(final(self).spec_handlers().drop_last() =~= old(self).spec_handlers());
        }
    }

    /// Mounts an endpoint for the corresponding method at `path`, built by
    /// the given builder, which must install a handler.
    fn patch<B: FnOnce(Endpoint<C>) -> (Endpoint<C>, EndpointHandlerPresent)>(
        &mut self,
        path: &str,
        builder: B,
    )
        requires
            forall|e: Endpoint<C>| #[trigger] call_requires(builder, (e,)),
        ensures
            final(self).spec_handlers().len() == old(self).spec_handlers().len() + 1,
            final(self).spec_handlers().drop_last() == old(self).spec_handlers(),
            final(self).spec_handlers().last() is Endpoint,
            final(self).spec_callbacks() == old(self).spec_callbacks(),
            final(self).spec_rest() == old(self).spec_rest(),
            exists|e0: Endpoint<C>, present: EndpointHandlerPresent|
                {
                    &&& e0.method == Method::Patch
                    &&& e0.path.view() == spec_parse(path@, 0)
                    &&& e0.path.endpoint
                    &&& e0.handler is None
                    &&& e0.coercer is None
                    &&& #[trigger] call_ensures(
                        builder,
                        (e0,),
                        (final(self).spec_handlers().last()->Endpoint_0, present),
                    )
                },
    {
        self.mount(ApiHandler::Endpoint(Endpoint::build(Method::Patch, path, builder)));
        proof {
            assert(final(self).spec_handlers().drop_last() =~= old(self).spec_handlers());
        }
    }
}

impl<C: Callback, F: ErrorFormatter> Node<C, F> for Api<C, F> {
    open spec fn spec_handlers(&self) -> Seq<ApiHandler<C, F>> {
        self.handlers@
    }

    open spec fn spec_callbacks(&self) -> CallbackList<C> {
        self.callbacks
    }

    open spec fn spec_rest(&self) -> Api<C, F> {
        Api { handlers: arbitrary(), callbacks: arbitrary(), ..*self }
    }

    fn push_handler(&mut self, child: ApiHandler<C, F>) {
        self.handlers.push(child);
    }

    fn push_before(&mut self, callback: C) {
        self.callbacks.before.push(callback);
    }

    fn push_before_validation(&mut self, callback: C) {
        self.callbacks.before_validation.push(callback);
    }

    fn push_after_validation(&mut self, callback: C) {
        self.callbacks.after_validation.push(callback);
    }

    fn push_after(&mut self, callback: C) {
        self.callbacks.after.push(callback);
    }
}

impl<C: Callback, F: ErrorFormatter> Nesting<C, F> for Api<C, F> {

}

impl<C: Callback, F: ErrorFormatter> Node<C, F> for Namespace<C, F> {
    open spec fn spec_handlers(&self) -> Seq<ApiHandler<C, F>> {
        self.handlers@
    }

    open spec fn spec_callbacks(&self) -> CallbackList<C> {
        self.callbacks
    }

    open spec fn spec_rest(&self) -> Namespace<C, F> {
        Namespace { handlers: arbitrary(), callbacks: arbitrary(), ..*self }
    }

    fn push_handler(&mut self, child: ApiHandler<C, F>) {
        self.handlers.push(child);
    }

    fn push_before(&mut self, callback: C) {
        self.callbacks.before.push(callback);
    }

    fn push_before_validation(&mut self, callback: C) {
        self.callbacks.before_validation.push(callback);
    }

    fn push_after_validation(&mut self, callback: C) {
        self.callbacks.after_validation.push(callback);
    }

    fn push_after(&mut self, callback: C) {
        self.callbacks.after.push(callback);
    }
}

impl<C: Callback, F: ErrorFormatter> Nesting<C, F> for Namespace<C, F> {

}

impl<C: Callback, F: ErrorFormatter> Namespace<C, F> {
    /// A namespace scoped by `path`, with no schema, children or
    /// callbacks yet.
    pub fn new(path: &str) -> (r: Namespace<C, F>)
        ensures
            r.path.path@ == path@,
            r.path.view() == spec_parse(path@, 0),
            crate::path::view_strings(r.path.params@) == crate::path::spec_param_names(
                spec_parse(path@, 0),
            ),
            !r.path.endpoint,
            r.coercer is None,
            r.handlers@ =~= Seq::<ApiHandler<C, F>>::empty(),
            r.callbacks.before@ =~= Seq::<C>::empty(),
            r.callbacks.before_validation@ =~= Seq::<C>::empty(),
            r.callbacks.after_validation@ =~= Seq::<C>::empty(),
            r.callbacks.after@ =~= Seq::<C>::empty(),
    {
        let parsed = match Path::parse(path, false) {
            Ok(p) => p,
            Err(_) => vstd::pervasive::unreached(),
        };
        Namespace { path: parsed, coercer: None, handlers: Vec::new(), callbacks: CallbackList::new() }
    }

    /// Builds a namespace by handing a fresh one through the builder.
    pub fn build<B: FnOnce(Namespace<C, F>) -> Namespace<C, F>>(path: &str, builder: B) -> (r:
        Namespace<C, F>)
        requires
            forall|ns: Namespace<C, F>| #[trigger] call_requires(builder, (ns,)),
        ensures
            exists|ns0: Namespace<C, F>|
                {
                    &&& ns0.path.view() == spec_parse(path@, 0)
                    &&& !ns0.path.endpoint
                    &&& ns0.coercer is None
                    &&& ns0.handlers@ == Seq::<ApiHandler<C, F>>::empty()
                    &&& #[trigger] call_ensures(builder, (ns0,), r)
                },
    {
        let ns = Namespace::new(path);
        proof {
            assert(ns.handlers@ =~= Seq::<ApiHandler<C, F>>::empty());
        }
        builder(ns)
    }

    /// Attaches the parameter schema the children share, built by the
    /// given builder.
    pub fn params<B: FnOnce(Schema) -> Schema>(&mut self, builder: B)
        requires
            forall|s: Schema| #[trigger] call_requires(builder, (s,)),
        ensures
            final(self).path == old(self).path,
            final(self).handlers == old(self).handlers,
            final(self).callbacks == old(self).callbacks,
            final(self).coercer is Some,
            exists|s0: Schema|
                {
                    &&& s0.rules@ == Seq::<crate::schema::ParamRule>::empty()
                    &&& #[trigger] call_ensures(builder, (s0,), final(self).coercer->0)
                },
    {
        let schema = Schema::new();
        let ghost s0 = schema;
        proof {
            assert(schema.rules@ =~= Seq::<crate::schema::ParamRule>::empty());
        }
        let built = builder(schema);
        proof {
            assert(call_ensures(builder, (s0,), built));
        }
        self.coercer = Some(built);
        proof {
            assert(self.coercer->0 == built);
            assert(call_ensures(builder, (s0,), self.coercer->0));
        }
    }
}

impl<C: Callback> Endpoint<C> {
    /// Builds an endpoint for `method` and `path` by handing a fresh one
    /// through the builder, which must install a handler.
    pub fn build<B: FnOnce(Endpoint<C>) -> (Endpoint<C>, EndpointHandlerPresent)>(
        method: Method,
        path: &str,
        builder: B,
    ) -> (r: Endpoint<C>)
        requires
            forall|e: Endpoint<C>| #[trigger] call_requires(builder, (e,)),
        ensures
            exists|e0: Endpoint<C>, present: EndpointHandlerPresent|
                {
                    &&& e0.method == method
                    &&& e0.path.view() == spec_parse(path@, 0)
                    &&& e0.path.endpoint
                    &&& e0.handler is None
                    &&& e0.coercer is None
                    &&& #[trigger] call_ensures(builder, (e0,), (r, present))
                },
    {
        let e = Endpoint::new(method, path);
        let (built, _present) = builder(e);
        built
    }

    /// Installs the handler; the returned token is the builder's proof one
    /// is there.
    pub fn handle(&mut self, handler: C) -> (r: EndpointHandlerPresent)
        ensures
            final(self).handler == Some(handler),
            final(self).method == old(self).method,
            final(self).path == old(self).path,
            final(self).coercer == old(self).coercer,
            final(self).summary == old(self).summary,
            final(self).desc == old(self).desc,
    {
        self.handler = Some(handler);
        EndpointHandlerPresent::HandlerPresent
    }

    /// Attaches the endpoint's parameter schema, built by the given
    /// builder.
    pub fn params<B: FnOnce(Schema) -> Schema>(&mut self, builder: B)
        requires
            forall|s: Schema| #[trigger] call_requires(builder, (s,)),
        ensures
            final(self).method == old(self).method,
            final(self).path == old(self).path,
            final(self).handler == old(self).handler,
            final(self).summary == old(self).summary,
            final(self).desc == old(self).desc,
            final(self).coercer is Some,
            exists|s0: Schema|
                {
                    &&& s0.rules@ == Seq::<crate::schema::ParamRule>::empty()
                    &&& #[trigger] call_ensures(builder, (s0,), final(self).coercer->0)
                },
    {
        let schema = Schema::new();
        let ghost s0 = schema;
        proof {
            assert(schema.rules@ =~= Seq::<crate::schema::ParamRule>::empty());
        }
        let built = builder(schema);
        proof {
            assert(call_ensures(builder, (s0,), built));
        }
        self.coercer = Some(built);
        proof {
            assert(self.coercer->0 == built);
            assert(call_ensures(builder, (s0,), self.coercer->0));
        }
    }

    /// Records a one-line summary for documentation.
    pub fn summary(&mut self, summary: &str)
        ensures
            final(self).summary is Some,
            final(self).summary->0@ == summary@,
            final(self).method == old(self).method,
            final(self).path == old(self).path,
            final(self).handler == old(self).handler,
            final(self).coercer == old(self).coercer,
            final(self).desc == old(self).desc,
    {
        self.summary = Some(summary.to_owned());
    }

    /// Records a longer description for documentation.
    pub fn desc(&mut self, desc: &str)
        ensures
            final(self).desc is Some,
            final(self).desc->0@ == desc@,
            final(self).method == old(self).method,
            final(self).path == old(self).path,
            final(self).handler == old(self).handler,
            final(self).coercer == old(self).coercer,
            final(self).summary == old(self).summary,
    {
        self.desc = Some(desc.to_owned());
    }
}

impl<C: Callback, F: ErrorFormatter> Api<C, F> {
    /// Builds an Api by handing a fresh one through the builder.
    pub fn build<B: FnOnce(Api<C, F>) -> Api<C, F>>(builder: B) -> (r: Api<C, F>)
        requires
            forall|a: Api<C, F>| #[trigger] call_requires(builder, (a,)),
        ensures
            exists|a0: Api<C, F>|
                {
                    &&& a0.prefix is None
                    &&& a0.version is None
                    &&& a0.handlers@ == Seq::<ApiHandler<C, F>>::empty()
                    &&& a0.error_formatters@ == Seq::<F>::empty()
                    &&& #[trigger] call_ensures(builder, (a0,), r)
                },
    {
        let a = Api::new();
        proof {
            assert(a.handlers@ =~= Seq::<ApiHandler<C, F>>::empty());
            assert(a.error_formatters@ =~= Seq::<F>::empty());
        }
        builder(a)
    }

    /// Attaches the version constraint.
    pub fn version(&mut self, version: &str, versioning: Versioning)
        ensures
            final(self).version is Some,
            final(self).version->0.version@ == version@,
            final(self).version->0.versioning == versioning,
            final(self).prefix == old(self).prefix,
            final(self).handlers == old(self).handlers,
            final(self).callbacks == old(self).callbacks,
            final(self).error_formatters == old(self).error_formatters,
            final(self).consumes == old(self).consumes,
            final(self).produces == old(self).produces,
    {
        self.version = Some(Version { version: version.to_owned(), versioning });
    }

    /// Attaches the path prefix.
    pub fn prefix(&mut self, prefix: &str)
        ensures
            final(self).prefix is Some,
            final(self).prefix->0@ == prefix@,
            final(self).version == old(self).version,
            final(self).handlers == old(self).handlers,
            final(self).callbacks == old(self).callbacks,
            final(self).error_formatters == old(self).error_formatters,
            final(self).consumes == old(self).consumes,
            final(self).produces == old(self).produces,
    {
        self.prefix = Some(prefix.to_owned());
    }

    /// Records the content types this Api consumes.
    pub fn consumes(&mut self, mimes: Vec<String>)
        ensures
            final(self).consumes == Some(mimes),
            final(self).prefix == old(self).prefix,
            final(self).version == old(self).version,
            final(self).handlers == old(self).handlers,
            final(self).callbacks == old(self).callbacks,
            final(self).error_formatters == old(self).error_formatters,
            final(self).produces == old(self).produces,
    {
        self.consumes = Some(mimes);
    }

    /// Records the content types this Api produces.
    pub fn produces(&mut self, mimes: Vec<String>)
        ensures
            final(self).produces == Some(mimes),
            final(self).prefix == old(self).prefix,
            final(self).version == old(self).version,
            final(self).handlers == old(self).handlers,
            final(self).callbacks == old(self).callbacks,
            final(self).error_formatters == old(self).error_formatters,
            final(self).consumes == old(self).consumes,
    {
        self.produces = Some(mimes);
    }

    /// Registers a custom error formatter after those already there.
    pub fn error_formatter(&mut self, formatter: F)
        ensures
            final(self).error_formatters@ == old(self).error_formatters@.push(formatter),
            final(self).prefix == old(self).prefix,
            final(self).version == old(self).version,
            final(self).handlers == old(self).handlers,
            final(self).callbacks == old(self).callbacks,
            final(self).consumes == old(self).consumes,
            final(self).produces == old(self).produces,
    {
        self.error_formatters.push(formatter);
    }
}

} // verus!
