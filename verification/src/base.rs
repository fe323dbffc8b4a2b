//! Base types for generated handle wrappers.
//!
//! Generated code gives each server type a client-side struct owning a
//! handle and a client reference; these bases carry that pair. The type
//! parameter `Cl` is the caller's client representation (the shell uses a
//! shared-ownership reference to its client); the bases only store and
//! return it.

use vstd::prelude::*;

use crate::handle::{handle_jv, ref_expr_jv, Handle, HandleV, ReferenceExpression};
use crate::json::Json;
use crate::json::JsonV;

verus! {

/// Types that own an underlying handle.
pub trait HasHandle {
    /// The mathematical value of the owned handle.
    spec fn spec_handle(&self) -> HandleV;

    /// The owned handle.
    fn handle(&self) -> (h: &Handle)
        ensures
            h@ == self.spec_handle(),
    ;
}

/// Types with a fixed JSON wire form.
pub trait ToJson {
    /// The mathematical value of the wire form.
    spec fn spec_json(&self) -> JsonV;

    /// The wire form.
    fn to_json(&self) -> (j: Json)
        ensures
            j.jv() == self.spec_json(),
    ;
}

impl ToJson for Handle {
    open spec fn spec_json(&self) -> JsonV {
        handle_jv(self@)
    }

    fn to_json(&self) -> (j: Json) {
        Handle::to_json(self)
    }
}

impl ToJson for ReferenceExpression {
    open spec fn spec_json(&self) -> JsonV {
        ref_expr_jv(self@)
    }

    fn to_json(&self) -> (j: Json) {
        ReferenceExpression::to_json(self)
    }
}

/// The base of every generated handle wrapper: the handle and the client
/// it proxies through.
pub struct HandleWrapperBase<Cl> {
    handle: Handle,
    client: Cl,
}

impl<Cl> HandleWrapperBase<Cl> {
    /// The client this wrapper was constructed with.
    pub closed spec fn spec_client(&self) -> Cl {
        self.client
    }

    /// A wrapper base from its handle and client.
    pub fn new(handle: Handle, client: Cl) -> (r: HandleWrapperBase<Cl>)
        ensures
            r.spec_handle() == handle@,
            r.spec_client() == client,
    {
        HandleWrapperBase { handle, client }
    }

    /// The client this wrapper proxies through: the one it was constructed
    /// with, unmodified.
    pub fn client(&self) -> (c: &Cl)
        ensures
            *c == self.spec_client(),
    {
        &self.client
    }
}

impl<Cl> HasHandle for HandleWrapperBase<Cl> {
    closed spec fn spec_handle(&self) -> HandleV {
        self.handle@
    }

    fn handle(&self) -> (h: &Handle) {
        &self.handle
    }
}

/// The base of every generated resource builder.
pub struct ResourceBuilderBase<Cl> {
    base: HandleWrapperBase<Cl>,
}

impl<Cl> ResourceBuilderBase<Cl> {
    /// The client this builder was constructed with.
    pub closed spec fn spec_client(&self) -> Cl {
        self.base.spec_client()
    }

    /// A builder base from its handle and client.
    pub fn new(handle: Handle, client: Cl) -> (r: ResourceBuilderBase<Cl>)
        ensures
            r.spec_handle() == handle@,
            r.spec_client() == client,
    {
        ResourceBuilderBase { base: HandleWrapperBase::new(handle, client) }
    }

    /// The client this builder proxies through: the one it was constructed
    /// with, unmodified.
    pub fn client(&self) -> (c: &Cl)
        ensures
            *c == self.spec_client(),
    {
        self.base.client()
    }
}

impl<Cl> HasHandle for ResourceBuilderBase<Cl> {
    closed spec fn spec_handle(&self) -> HandleV {
        self.base.spec_handle()
    }

    fn handle(&self) -> (h: &Handle) {
        self.base.handle()
    }
}

/// A value's JSON representation: values already are JSON here, so this is
/// a copy with the same mathematical value.
pub fn serialize_value(value: &Json) -> (r: Json)
    ensures
        r.jv() == value.jv(),
{
    value.deep_clone()
}

/// A handle wrapper's JSON representation: the wire form of its handle.
pub fn serialize_handle<W: HasHandle>(wrapper: &W) -> (r: Json)
    ensures
        r.jv() == handle_jv(wrapper.spec_handle()),
{
    wrapper.handle().to_json()
}

} // verus!
