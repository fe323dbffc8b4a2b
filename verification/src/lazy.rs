//! Lazy handle-backed collections.
//!
//! An `AspireList` or `AspireDict` stands for a server-side collection. It
//! holds a context handle and, optionally, a getter capability id. The
//! resolved handle is the context handle itself when no getter is
//! configured; otherwise it is produced on first access by invoking the
//! getter with `{"context": <context handle>}` and reading the result as a
//! handle, falling back to the context handle when the call fails or the
//! result is no handle. The cache is write-once: the getter is asked for at
//! most once over the proxy's life.

use vstd::prelude::*;

use core::marker::PhantomData;

use crate::handle::{handle_jv, jv_to_handle, Handle, HandleV};
use crate::json::{clone_bytes, Json, JsonV};
use crate::keys;

verus! {

/// The mathematical state of a lazy collection proxy.
pub struct LazyV {
    pub context: HandleV,
    pub getter: Option<Seq<u8>>,
    pub resolved: Option<HandleV>,
}

impl LazyV {
    /// True when an access must first invoke the getter capability.
    pub open spec fn needs_resolution(self) -> bool {
        self.resolved is None && self.getter is Some
    }
}

/// The handle a resolution caches: the result decoded as a handle when it
/// is one, the context handle otherwise, and also when the call failed.
pub open spec fn resolve_value(context: HandleV, result: Option<JsonV>) -> HandleV {
    match result {
        Some(v) => match jv_to_handle(v) {
            Some(h) => h,
            None => context,
        },
        None => context,
    }
}

/// The state after a resolution completes: the cache written, once.
pub open spec fn resolve_step(s: LazyV, result: Option<JsonV>) -> LazyV {
    LazyV { resolved: Some(resolve_value(s.context, result)), ..s }
}

/// A resolved proxy never asks for the getter again: the cache is
/// write-once, so the getter capability is invoked at most once over the
/// lifetime of the proxy.
pub proof fn lemma_getter_at_most_once(s: LazyV, result: Option<JsonV>)
    ensures
        !resolve_step(s, result).needs_resolution(),
{
}

/// A lazy handle-backed list.
pub struct AspireList<T> {
    context_handle: Handle,
    getter_capability_id: Option<Vec<u8>>,
    resolved_handle: Option<Handle>,
    marker: PhantomData<T>,
}

impl<T> View for AspireList<T> {
    type V = LazyV;

    closed spec fn view(&self) -> LazyV {
        LazyV {
            context: self.context_handle@,
            getter: match self.getter_capability_id {
                Some(ref g) => Some(g@),
                None => None,
            },
            resolved: match self.resolved_handle {
                Some(ref h) => Some(h@),
                None => None,
            },
        }
    }
}

impl<T> AspireList<T> {
    /// A list whose handle is already known: cached on construction.
    pub fn new(handle: Handle) -> (r: AspireList<T>)
        ensures
            r@ == (LazyV {
                context: handle@,
                getter: None::<Seq<u8>>,
                resolved: Some(handle@),
            }),
    {
        let cached = handle.clone_handle();
        AspireList {
            context_handle: handle,
            getter_capability_id: None,
            resolved_handle: Some(cached),
            marker: PhantomData,
        }
    }

    /// A list resolved on first access through the getter capability.
    pub fn with_getter(context_handle: Handle, getter_capability_id: Vec<u8>) -> (r: AspireList<
        T,
    >)
        ensures
            r@ == (LazyV {
                context: context_handle@,
                getter: Some(getter_capability_id@),
                resolved: None::<HandleV>,
            }),
    {
        AspireList {
            context_handle,
            getter_capability_id: Some(getter_capability_id),
            resolved_handle: None,
            marker: PhantomData,
        }
    }

    /// The getter invocation an access must perform first, if any: the
    /// getter capability id and the argument object
    /// `{"context": <context handle>}`. `None` once resolved, so the
    /// getter is invoked at most once.
    pub fn resolution_request(&self) -> (r: Option<(Vec<u8>, Vec<(Vec<u8>, Json)>)>)
        ensures
            match r {
                Some((getter, args)) => {
                    &&& self@.needs_resolution()
                    &&& self@.getter == Some(getter@)
                    &&& args@.len() == 1
                    &&& args@[0].0@ == keys::context_key()
                    &&& args@[0].1.jv() == handle_jv(self@.context)
                },
                None => !self@.needs_resolution(),
            },
    {
        if self.resolved_handle.is_some() {
            return None;
        }
        match &self.getter_capability_id {
            Some(getter) => {
                let mut args: Vec<(Vec<u8>, Json)> = Vec::new();
                args.push((keys::context_key_vec(), self.context_handle.to_json()));
                Some((clone_bytes(getter), args))
            },
            None => None,
        }
    }

    /// Writes the cache with the getter's outcome: the result decoded as a
    /// handle when it is one, the context handle otherwise. `None` stands
    /// for a failed invocation. The cache is written exactly once.
    pub fn complete_resolution(&mut self, result: Option<Json>)
        requires
            old(self)@.resolved is None,
        ensures
            final(self)@ == resolve_step(
                old(self)@,
                match result {
                    Some(v) => Some(v.jv()),
                    None => None,
                },
            ),
    {
        let resolved = match result {
            Some(v) => match crate::handle::handle_from_json(&v) {
                Some(h) => h,
                None => self.context_handle.clone_handle(),
            },
            None => self.context_handle.clone_handle(),
        };
        self.resolved_handle = Some(resolved);
    }

    /// The resolved handle of this collection.
    pub fn handle(&self) -> (h: &Handle)
        requires
            self@.resolved is Some,
        ensures
            self@.resolved == Some(h@),
    {
        match &self.resolved_handle {
            Some(h) => h,
            None => unreached(),
        }
    }

    /// The context handle this proxy was constructed over.
    pub fn context_handle(&self) -> (h: &Handle)
        ensures
            h@ == self@.context,
    {
        &self.context_handle
    }
}

/// A lazy handle-backed dictionary.
pub struct AspireDict<K, V> {
    context_handle: Handle,
    getter_capability_id: Option<Vec<u8>>,
    resolved_handle: Option<Handle>,
    key_marker: PhantomData<K>,
    value_marker: PhantomData<V>,
}

impl<K, V> View for AspireDict<K, V> {
    type V = LazyV;

    closed spec fn view(&self) -> LazyV {
        LazyV {
            context: self.context_handle@,
            getter: match self.getter_capability_id {
                Some(ref g) => Some(g@),
                None => None,
            },
            resolved: match self.resolved_handle {
                Some(ref h) => Some(h@),
                None => None,
            },
        }
    }
}

impl<K, V> AspireDict<K, V> {
    /// A dictionary whose handle is already known: cached on construction.
    pub fn new(handle: Handle) -> (r: AspireDict<K, V>)
        ensures
            r@ == (LazyV {
                context: handle@,
                getter: None::<Seq<u8>>,
                resolved: Some(handle@),
            }),
    {
        let cached = handle.clone_handle();
        AspireDict {
            context_handle: handle,
            getter_capability_id: None,
            resolved_handle: Some(cached),
            key_marker: PhantomData,
            value_marker: PhantomData,
        }
    }

    /// A dictionary resolved on first access through the getter capability.
    pub fn with_getter(context_handle: Handle, getter_capability_id: Vec<u8>) -> (r: AspireDict<
        K,
        V,
    >)
        ensures
            r@ == (LazyV {
                context: context_handle@,
                getter: Some(getter_capability_id@),
                resolved: None::<HandleV>,
            }),
    {
        AspireDict {
            context_handle,
            getter_capability_id: Some(getter_capability_id),
            resolved_handle: None,
            key_marker: PhantomData,
            value_marker: PhantomData,
        }
    }

    /// The getter invocation an access must perform first, if any; `None`
    /// once resolved, so the getter is invoked at most once.
    pub fn resolution_request(&self) -> (r: Option<(Vec<u8>, Vec<(Vec<u8>, Json)>)>)
        ensures
            match r {
                Some((getter, args)) => {
                    &&& self@.needs_resolution()
                    &&& self@.getter == Some(getter@)
                    &&& args@.len() == 1
                    &&& args@[0].0@ == keys::context_key()
                    &&& args@[0].1.jv() == handle_jv(self@.context)
                },
                None => !self@.needs_resolution(),
            },
    {
        if self.resolved_handle.is_some() {
            return None;
        }
        match &self.getter_capability_id {
            Some(getter) => {
                let mut args: Vec<(Vec<u8>, Json)> = Vec::new();
                args.push((keys::context_key_vec(), self.context_handle.to_json()));
                Some((clone_bytes(getter), args))
            },
            None => None,
        }
    }

    /// Writes the cache with the getter's outcome, exactly once.
    pub fn complete_resolution(&mut self, result: Option<Json>)
        requires
            old(self)@.resolved is None,
        ensures
            final(self)@ == resolve_step(
                old(self)@,
                match result {
                    Some(v) => Some(v.jv()),
                    None => None,
                },
            ),
    {
        let resolved = match result {
            Some(v) => match crate::handle::handle_from_json(&v) {
                Some(h) => h,
                None => self.context_handle.clone_handle(),
            },
            None => self.context_handle.clone_handle(),
        };
        self.resolved_handle = Some(resolved);
    }

    /// The resolved handle of this collection.
    pub fn handle(&self) -> (h: &Handle)
        requires
            self@.resolved is Some,
        ensures
            self@.resolved == Some(h@),
    {
        match &self.resolved_handle {
            Some(h) => h,
            None => unreached(),
        }
    }

    /// The context handle this proxy was constructed over.
    pub fn context_handle(&self) -> (h: &Handle)
        ensures
            h@ == self@.context,
    {
        &self.context_handle
    }
}

} // verus!
