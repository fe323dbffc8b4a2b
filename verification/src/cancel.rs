//! Cancellation tokens and their registration with the client.
//!
//! A token is local or handle-backed. Its flag moves from false to true at
//! most once; the continuations registered on it are handed back, in
//! registration order, exactly at that transition, for the caller to run.
//! `C` is the caller's continuation representation; the token stores and
//! returns such values and never runs them.

use vstd::prelude::*;

use crate::digits::dec_digits;
use crate::handle::{Handle, HandleV};
use crate::keys;

verus! {

/// The mathematical state of a cancellation token.
pub struct TokenV<C> {
    pub handle: Option<HandleV>,
    pub cancelled: bool,
    pub continuations: Seq<C>,
}

/// A cooperative cancellation token.
pub struct CancellationToken<C> {
    handle: Option<Handle>,
    cancelled: bool,
    continuations: Vec<C>,
}

impl<C> View for CancellationToken<C> {
    type V = TokenV<C>;

    closed spec fn view(&self) -> TokenV<C> {
        TokenV {
            handle: match self.handle {
                Some(ref h) => Some(h@),
                None => None,
            },
            cancelled: self.cancelled,
            continuations: self.continuations@,
        }
    }
}

/// The state and the continuations to run after a cancel: on the
/// transition from false to true, the flag is set and every registered
/// continuation is drained; a later cancel changes nothing and drains
/// nothing.
pub open spec fn cancel_step<C>(t: TokenV<C>) -> (TokenV<C>, Seq<C>) {
    if t.cancelled {
        (t, Seq::empty())
    } else {
        (TokenV { cancelled: true, continuations: Seq::empty(), ..t }, t.continuations)
    }
}

/// Cancelling twice has the observable effect of cancelling once: the
/// second cancel leaves the state as it stands and runs no continuation.
pub proof fn lemma_cancel_idempotent<C>(t: TokenV<C>)
    ensures
        cancel_step(cancel_step(t).0).0 == cancel_step(t).0,
        cancel_step(cancel_step(t).0).1 == Seq::<C>::empty(),
{
    assert(cancel_step(cancel_step(t).0).1 =~= Seq::<C>::empty());
}

/// The flag only moves from false to true, never back.
pub proof fn lemma_cancel_monotone<C>(t: TokenV<C>)
    ensures
        cancel_step(t).0.cancelled,
        t.cancelled ==> cancel_step(t).0 == t,
{
}

impl<C> CancellationToken<C> {
    /// A local token with no server identity.
    pub fn new_local() -> (t: CancellationToken<C>)
        ensures
            t@ == (TokenV {
                handle: None::<HandleV>,
                cancelled: false,
                continuations: Seq::<C>::empty(),
            }),
    {
        let t = CancellationToken { handle: None, cancelled: false, continuations: Vec::new() };
        assert(t@.continuations =~= Seq::<C>::empty());
        t
    }

    /// A handle-backed token: a proxy for a server-side cancellation
    /// object.
    pub fn new(handle: Handle) -> (t: CancellationToken<C>)
        ensures
            t@ == (TokenV {
                handle: Some(handle@),
                cancelled: false,
                continuations: Seq::<C>::empty(),
            }),
    {
        let t = CancellationToken {
            handle: Some(handle),
            cancelled: false,
            continuations: Vec::new(),
        };
        assert(t@.continuations =~= Seq::<C>::empty());
        t
    }

    /// The handle, when this token is handle-backed.
    pub fn handle(&self) -> (r: Option<&Handle>)
        ensures
            match r {
                Some(h) => self@.handle == Some(h@),
                None => self@.handle is None,
            },
    {
        match &self.handle {
            Some(h) => Some(h),
            None => None,
        }
    }

    /// Whether this token is cancelled; monotone over the token's life.
    pub fn is_cancelled(&self) -> (r: bool)
        ensures
            r == self@.cancelled,
    {
        self.cancelled
    }

    /// Cancels the token and returns the continuations to run now, in
    /// registration order: all of them on the transition from false to
    /// true, none on a repeated cancel.
    pub fn cancel(&mut self) -> (to_run: Vec<C>)
        ensures
            final(self)@ == cancel_step(old(self)@).0,
            to_run@ == cancel_step(old(self)@).1,
    {
        if self.cancelled {
            let empty: Vec<C> = Vec::new();
            assert(empty@ =~= Seq::<C>::empty());
            return empty;
        }
        self.cancelled = true;
        let mut drained: Vec<C> = Vec::new();
        core::mem::swap(&mut drained, &mut self.continuations);
        assert(self@.continuations =~= Seq::<C>::empty());
        drained
    }

    /// Registers a continuation: appended when the token still runs,
    /// handed back to run at once when it is already cancelled.
    pub fn register(&mut self, continuation: C) -> (run_now: Option<C>)
        ensures
            match run_now {
                Some(c) => {
                    &&& old(self)@.cancelled
                    &&& c == continuation
                    &&& final(self)@ == old(self)@
                },
                None => {
                    &&& !old(self)@.cancelled
                    &&& final(self)@ == (TokenV {
                        continuations: old(self)@.continuations.push(continuation),
                        ..old(self)@
                    })
                },
            },
    {
        if self.cancelled {
            return Some(continuation);
        }
        self.continuations.push(continuation);
        None
    }
}

impl<C> Default for CancellationToken<C> {
    /// The default token is local and not cancelled.
    fn default() -> (t: CancellationToken<C>)
        ensures
            t@.handle is None,
            !t@.cancelled,
            t@.continuations.len() == 0,
    {
        CancellationToken::new_local()
    }
}

/// The id issued for the `n`-th registered cancellation token: `ct_<n>`.
pub open spec fn token_id_bytes(n: u64) -> Seq<u8> {
    keys::token_id_prefix() + dec_digits(n as nat)
}

/// Distinct counters give distinct token ids.
pub proof fn lemma_token_id_injective(a: u64, b: u64)
    requires
        token_id_bytes(a) == token_id_bytes(b),
    ensures
        a == b,
{
    let p = keys::token_id_prefix().len() as int;
    assert(dec_digits(a as nat) =~= token_id_bytes(a).skip(p));
    assert(dec_digits(b as nat) =~= token_id_bytes(b).skip(p));
    crate::digits::lemma_dec_digits_injective(a as nat, b as nat);
}

/// The source of cancellation-token ids: a monotonic counter, so an id is
/// unique within the factory's scope.
pub struct TokenIdFactory {
    next: u64,
}

impl TokenIdFactory {
    /// The counter the next registration will use.
    pub closed spec fn next_key(&self) -> u64 {
        self.next
    }

    /// How many ids this factory has issued: the counter the next
    /// registration will use. The shell tests this against the counter
    /// limit before registering.
    pub fn issued(&self) -> (r: u64)
        ensures
            r == self.next_key(),
    {
        self.next
    }

    /// A fresh factory.
    pub fn new() -> (r: TokenIdFactory)
        ensures
            r.next_key() == 0,
    {
        TokenIdFactory { next: 0 }
    }

    /// Issues the next token id.
    pub fn fresh_id(&mut self) -> (id: Vec<u8>)
        requires
            old(self).next_key() < u64::MAX,
        ensures
            id@ == token_id_bytes(old(self).next_key()),
            final(self).next_key() == old(self).next_key() + 1,
    {
        let key = self.next;
        self.next = self.next + 1;
        let mut id = keys::token_id_prefix_vec();
        let mut digits = crate::digits::render_u64(key);
        id.append(&mut digits);
        id
    }
}

/// Registers a token for server-side cancellation: issues a fresh token id
/// and registers `continuation` on the token. The caller substitutes the
/// id into the capability's arguments and, when the token fires, runs the
/// continuation, which should send `cancelToken` with this id. When the
/// token is already cancelled, the continuation comes back to run at once.
pub fn register_cancellation<C>(
    token: &mut CancellationToken<C>,
    ids: &mut TokenIdFactory,
    continuation: C,
) -> (r: (Vec<u8>, Option<C>))
    requires
        old(ids).next_key() < u64::MAX,
    ensures
        r.0@ == token_id_bytes(old(ids).next_key()),
        final(ids).next_key() == old(ids).next_key() + 1,
        match r.1 {
            Some(c) => {
                &&& old(token)@.cancelled
                &&& c == continuation
                &&& final(token)@ == old(token)@
            },
            None => {
                &&& !old(token)@.cancelled
                &&& final(token)@ == (TokenV {
                    continuations: old(token)@.continuations.push(continuation),
                    ..old(token)@
                })
            },
        },
{
    let id = ids.fresh_id();
    let run_now = token.register(continuation);
    (id, run_now)
}

} // verus!
