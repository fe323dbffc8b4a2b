//! The callback registry and the handle-wrapper registry.
//!
//! The server addresses client-side closures by opaque string ids, so the
//! registry binds each issued id to a caller-supplied value (the shell uses
//! closures; the registry never runs them). Ids are `callback_<n>` for a
//! strictly increasing counter `n`, so an id is never issued twice and an
//! unregistered id never comes back. The registry is a value, not a global:
//! the shell decides its scope, as the server only ever sees the id strings.

use vstd::prelude::*;

use crate::digits::{dec_digits, read_digits};
use crate::json::{bytes_eq, clone_bytes, Json};
use crate::keys;

verus! {

/// The id issued for the `n`-th registered callback: `callback_<n>`.
pub open spec fn callback_id_bytes(n: u64) -> Seq<u8> {
    keys::callback_id_prefix() + dec_digits(n as nat)
}

/// Distinct counters give distinct callback ids.
pub proof fn lemma_callback_id_injective(a: u64, b: u64)
    requires
        callback_id_bytes(a) == callback_id_bytes(b),
    ensures
        a == b,
{
    let p = keys::callback_id_prefix().len() as int;
    assert(dec_digits(a as nat) =~= callback_id_bytes(a).skip(p));
    assert(dec_digits(b as nat) =~= callback_id_bytes(b).skip(p));
    crate::digits::lemma_dec_digits_injective(a as nat, b as nat);
}

/// The counter a callback id names: `Some(n)` exactly for the byte strings
/// `callback_<n>` with `n` a `u64`.
pub open spec fn callback_key_of(id: Seq<u8>) -> Option<u64> {
    let p = keys::callback_id_prefix().len() as int;
    if id.len() > p && id.take(p) == keys::callback_id_prefix() && read_digits(id, p, 0).1
        == id.len() && read_digits(id, p, 0).0 <= u64::MAX {
        Some(read_digits(id, p, 0).0 as u64)
    } else {
        None
    }
}

/// An id the registry issued reads back as its counter.
pub proof fn lemma_callback_id_read_back(n: u64)
    ensures
        callback_key_of(callback_id_bytes(n)) == Some(n),
{
    let id = callback_id_bytes(n);
    let p = keys::callback_id_prefix().len() as int;
    crate::digits::lemma_dec_digits_shape(n as nat);
    assert(id.take(p) =~= keys::callback_id_prefix());
    assert(id.skip(p) =~= dec_digits(n as nat));
    crate::digits::lemma_dec_digits_read_back(n as nat);
    crate::digits::lemma_read_digits_offset(id, p, p, 0);
}

/// Removes the entries bound to `key`.
pub open spec fn remove_key<C>(entries: Seq<(u64, C)>, key: u64) -> Seq<(u64, C)>
    decreases entries.len(),
{
    if entries.len() == 0 {
        entries
    } else if entries[0].0 == key {
        remove_key(entries.drop_first(), key)
    } else {
        seq![entries[0]] + remove_key(entries.drop_first(), key)
    }
}

/// Whether some entry is bound to `key`.
pub open spec fn has_key<C>(entries: Seq<(u64, C)>, key: u64) -> bool {
    exists|i: int| 0 <= i < entries.len() && (#[trigger] entries[i]).0 == key
}

/// The registry of callbacks the server may invoke in reverse requests.
/// `C` is the caller's callback representation; the registry stores and
/// returns such values and never runs them.
pub struct CallbackRegistry<C> {
    entries: Vec<(u64, C)>,
    next: u64,
}

impl<C> CallbackRegistry<C> {
    /// The bound entries, in registration order.
    pub closed spec fn entries(&self) -> Seq<(u64, C)> {
        self.entries@
    }

    /// The counter the next registration will use.
    pub closed spec fn next_key(&self) -> u64 {
        self.next
    }

    /// Every bound key was issued before the counter's position. This is
    /// why an id never comes back: once unregistered, a key is below every
    /// later counter value, and registration only hands out the counter.
    pub open spec fn wf(&self) -> bool {
        &&& forall|i: int| 0 <= i < self.entries().len() ==> (#[trigger] self.entries()[i]).0
            < self.next_key()
        &&& forall|i: int, j: int|
            0 <= i < j < self.entries().len() ==> (#[trigger] self.entries()[i]).0 != (
            #[trigger] self.entries()[j]).0
    }

    /// How many ids this registry has issued: the counter the next
    /// registration will use. The shell tests this against the counter
    /// limit before registering.
    pub fn issued(&self) -> (r: u64)
        ensures
            r == self.next_key(),
    {
        self.next
    }

    /// An empty registry.
    pub fn new() -> (r: CallbackRegistry<C>)
        ensures
            r.entries() == Seq::<(u64, C)>::empty(),
            r.next_key() == 0,
            r.wf(),
    {
        let r = CallbackRegistry { entries: Vec::new(), next: 0 };
        assert(r.entries() =~= Seq::<(u64, C)>::empty());
        r
    }

    /// The callback bound to the key that `id` names, if any.
    pub fn lookup(&self, id: &Vec<u8>) -> (r: Option<&C>)
        requires
            self.wf(),
        ensures
            match r {
                Some(c) => {
                    &&& callback_key_of(id@) matches Some(k)
                    &&& has_key(self.entries(), k)
                    &&& exists|i: int|
                        0 <= i < self.entries().len() && #[trigger] self.entries()[i] == (k, *c)
                },
                None => {
                    ||| callback_key_of(id@) is None
                    ||| (callback_key_of(id@) matches Some(k) && !has_key(self.entries(), k))
                },
            },
    {
        let key = match parse_callback_id(id) {
            Some(k) => k,
            None => {
                return None;
            },
        };
        let n = self.entries.len();
        let mut i: usize = 0;
        while i < n
            invariant
                0 <= i <= n,
                n == self.entries().len(),
                callback_key_of(id@) == Some(key),
                forall|m: int| 0 <= m < i ==> (#[trigger] self.entries()[m]).0 != key,
            decreases n - i,
        {
            let entry = &self.entries[i];
            if entry.0 == key {
                assert(self.entries()[i as int] == (key, entry.1));
                return Some(&entry.1);
            }
            i = i + 1;
        }
        None
    }
}

/// Reads a callback id back to its counter: `Some(n)` exactly for
/// `callback_<n>`.
fn parse_callback_id(id: &Vec<u8>) -> (r: Option<u64>)
    ensures
        r == callback_key_of(id@),
{
    let prefix = keys::callback_id_prefix_vec();
    let p = prefix.len();
    if id.len() <= p {
        return None;
    }
    let mut i: usize = 0;
    while i < p
        invariant
            0 <= i <= p,
            p < id@.len(),
            prefix@ == keys::callback_id_prefix(),
            p == prefix@.len(),
            forall|m: int| 0 <= m < i ==> id@[m] == prefix@[m],
        decreases p - i,
    {
        if id[i] != prefix[i] {
            assert(id@.take(p as int)[i as int] != prefix@[i as int]);
            return None;
        }
        i = i + 1;
    }
    assert(id@.take(p as int) =~= keys::callback_id_prefix());
    crate::digits::parse_u64_to_end(id, p)
}

/// Registers a callback: binds it to a fresh id, which the caller hands to
/// the server, and returns that id. The id differs from every id issued
/// before, including unregistered ones.
pub fn register_callback<C>(registry: &mut CallbackRegistry<C>, callback: C) -> (id: Vec<u8>)
    requires
        old(registry).wf(),
        old(registry).next_key() < u64::MAX,
    ensures
        final(registry).wf(),
        id@ == callback_id_bytes(old(registry).next_key()),
        final(registry).entries() == old(registry).entries().push(
            (old(registry).next_key(), callback),
        ),
        final(registry).next_key() == old(registry).next_key() + 1,
        !has_key(old(registry).entries(), old(registry).next_key()),
{
    let key = registry.next;
    registry.next = registry.next + 1;
    registry.entries.push((key, callback));
    proof {
        let es = registry.entries();
        let olde = old(registry).entries();
        assert forall|i: int, j: int| 0 <= i < j < es.len() implies (#[trigger] es[i]).0 != (
        #[trigger] es[j]).0 by {
            assert(es[i] == olde[i]);
            if j == es.len() - 1 {
                assert(olde[i].0 < old(registry).next_key());
            } else {
                assert(es[j] == olde[j]);
            }
        }
        assert forall|i: int| 0 <= i < es.len() implies (#[trigger] es[i]).0
            < registry.next_key() by {
            if i < es.len() - 1 {
                assert(es[i] == olde[i]);
            }
        }
        assert(!has_key(olde, key));
    }
    let mut id = keys::callback_id_prefix_vec();
    let mut digits = crate::digits::render_u64(key);
    id.append(&mut digits);
    id
}

/// A sequence without entries bound to `key` is unchanged by removing it.
proof fn lemma_remove_key_absent<C>(entries: Seq<(u64, C)>, key: u64)
    requires
        !has_key(entries, key),
    ensures
        remove_key(entries, key) =~= entries,
    decreases entries.len(),
{
    if entries.len() > 0 {
        assert(entries[0].0 != key);
        assert(forall|m: int| 0 <= m < entries.drop_first().len() ==> (
        #[trigger] entries.drop_first()[m]) == entries[m + 1]);
        lemma_remove_key_absent(entries.drop_first(), key);
    }
}

/// When exactly one entry is bound to `key`, removing the key removes that
/// entry and nothing else.
proof fn lemma_remove_key_unique<C>(entries: Seq<(u64, C)>, key: u64, i: int)
    requires
        0 <= i < entries.len(),
        entries[i].0 == key,
        forall|m: int| 0 <= m < entries.len() && m != i ==> (#[trigger] entries[m]).0 != key,
    ensures
        remove_key(entries, key) =~= entries.remove(i),
    decreases entries.len(),
{
    assert(forall|m: int| 0 <= m < entries.drop_first().len() ==> (
    #[trigger] entries.drop_first()[m]) == entries[m + 1]);
    if i == 0 {
        assert(!has_key(entries.drop_first(), key));
        lemma_remove_key_absent(entries.drop_first(), key);
        assert(entries.remove(0) =~= entries.drop_first());
    } else {
        lemma_remove_key_unique(entries.drop_first(), key, i - 1);
        assert(entries.remove(i) =~= seq![entries[0]] + entries.drop_first().remove(i - 1));
    }
}

/// Unregisters the callback that `id` names. Returns whether one was
/// bound; the key never comes back, as ids are never reused.
pub fn unregister_callback<C>(registry: &mut CallbackRegistry<C>, id: &Vec<u8>) -> (removed: bool)
    requires
        old(registry).wf(),
    ensures
        final(registry).wf(),
        final(registry).next_key() == old(registry).next_key(),
        match callback_key_of(id@) {
            Some(k) => {
                &&& removed == has_key(old(registry).entries(), k)
                &&& final(registry).entries() == remove_key(old(registry).entries(), k)
            },
            None => {
                &&& !removed
                &&& final(registry).entries() == old(registry).entries()
            },
        },
{
    let key = match parse_callback_id(id) {
        Some(k) => k,
        None => {
            return false;
        },
    };
    let ghost entries0 = registry.entries();
    let n = registry.entries.len();
    let mut i: usize = 0;
    while i < n
        invariant
            0 <= i <= n,
            n == entries0.len(),
            registry.entries() == entries0,
            entries0 == old(registry).entries(),
            registry.next_key() == old(registry).next_key(),
            registry.wf(),
            callback_key_of(id@) == Some(key),
            forall|m: int| 0 <= m < i ==> (#[trigger] entries0[m]).0 != key,
        decreases n - i,
    {
        let hit = registry.entries[i].0 == key;
        if hit {
            proof {
                assert(entries0[i as int].0 == key);
                assert(has_key(entries0, key));
                assert forall|m: int| 0 <= m < entries0.len() && m != i as int implies (
                #[trigger] entries0[m]).0 != key by {
                    if m > i as int {
                        assert(entries0[i as int].0 != entries0[m].0);
                    }
                }
                lemma_remove_key_unique(entries0, key, i as int);
            }
            let _ = registry.entries.remove(i);
            proof {
                assert(registry.entries() =~= remove_key(entries0, key));
                let es = registry.entries();
                assert(forall|m: int| 0 <= m < es.len() ==> (#[trigger] es[m]) == if m < i as int {
                    entries0[m]
                } else {
                    entries0[m + 1]
                });
                assert forall|a: int, b: int| 0 <= a < b < es.len() implies (
                #[trigger] es[a]).0 != (#[trigger] es[b]).0 by {
                    let a0 = if a < i as int { a } else { a + 1 };
                    let b0 = if b < i as int { b } else { b + 1 };
                    assert(es[a] == entries0[a0] && es[b] == entries0[b0]);
                }
                assert(forall|m: int| 0 <= m < es.len() ==> (#[trigger] es[m]).0
                    < registry.next_key());
            }
            return true;
        }
        i = i + 1;
    }
    proof {
        lemma_remove_key_absent(entries0, key);
    }
    false
}

/// The registry of handle-wrapper factories, keyed by type id. `F` is the
/// caller's factory representation; generated code registers one per
/// server type and the shell looks them up when it re-wraps a returned
/// handle into a typed proxy.
pub struct HandleWrapperRegistry<F> {
    entries: Vec<(Vec<u8>, F)>,
}

impl<F> HandleWrapperRegistry<F> {
    /// The bound factories, in registration order.
    pub closed spec fn entries(&self) -> Seq<(Seq<u8>, F)> {
        Seq::new(
            self.entries@.len(),
            |i: int|
                if 0 <= i < self.entries@.len() {
                    (self.entries@[i].0@, self.entries@[i].1)
                } else {
                    arbitrary()
                },
        )
    }

    /// An empty registry.
    pub fn new() -> (r: HandleWrapperRegistry<F>)
        ensures
            r.entries() == Seq::<(Seq<u8>, F)>::empty(),
    {
        let r = HandleWrapperRegistry { entries: Vec::new() };
        assert(r.entries() =~= Seq::<(Seq<u8>, F)>::empty());
        r
    }

    /// The factory bound to `type_id`, if any: the last one registered for
    /// it, as a repeated registration for a type replaces the earlier one.
    pub fn lookup(&self, type_id: &Vec<u8>) -> (r: Option<&F>)
        ensures
            match r {
                Some(f) => wrapper_lookup(self.entries(), type_id@) == Some(*f),
                None => wrapper_lookup(self.entries(), type_id@) is None,
            },
    {
        let n = self.entries.len();
        assert(self.entries().take(n as int) =~= self.entries());
        let mut i: usize = n;
        while i > 0
            invariant
                0 <= i <= n,
                n == self.entries@.len(),
                n == self.entries().len(),
                forall|m: int| 0 <= m < n ==> (#[trigger] self.entries()[m]) == (
                    self.entries@[m].0@,
                    self.entries@[m].1,
                ),
                wrapper_lookup(self.entries(), type_id@) == wrapper_lookup(
                    self.entries().take(i as int),
                    type_id@,
                ),
            decreases i,
        {
            let entry = &self.entries[i - 1];
            proof {
                assert(self.entries().take(i as int).last() == self.entries()[i as int - 1]);
                assert(self.entries().take(i as int).drop_last() =~= self.entries().take(
                    i as int - 1,
                ));
            }
            if bytes_eq(&entry.0, type_id) {
                assert(self.entries()[i as int - 1] == (type_id@, entry.1));
                return Some(&entry.1);
            }
            i = i - 1;
        }
        assert(self.entries().take(0) =~= Seq::<(Seq<u8>, F)>::empty());
        None
    }
}

/// The factory a lookup yields: of the entries bound to `key`, the last
/// one registered.
pub open spec fn wrapper_lookup<F>(entries: Seq<(Seq<u8>, F)>, key: Seq<u8>) -> Option<F>
    decreases entries.len(),
{
    if entries.len() == 0 {
        None
    } else if entries.last().0 == key {
        Some(entries.last().1)
    } else {
        wrapper_lookup(entries.drop_last(), key)
    }
}

/// Registers a handle-wrapper factory for a type id.
pub fn register_handle_wrapper<F>(
    registry: &mut HandleWrapperRegistry<F>,
    type_id: Vec<u8>,
    factory: F,
)
    ensures
        final(registry).entries() == old(registry).entries().push((type_id@, factory)),
{
    let ghost before = registry.entries();
    registry.entries.push((type_id, factory));
    assert(registry.entries() =~= before.push((type_id@, factory)));
}

/// Hands a value through unchanged. Re-wrapping marshalled handles into
/// typed proxies is the generated wrappers' task, performed through their
/// own constructors; the runtime only detects handles.
pub fn wrap_if_handle(value: Json) -> (r: Json)
    ensures
        r == value,
{
    value
}

} // verus!
