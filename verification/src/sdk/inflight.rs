//! The actions an agent is working on, and how to cancel one of them.

use crate::model::Cookie;
use crate::sdk::ctx;
use std::collections::HashMap;
use tokio_util::sync::CancellationToken;
use vstd::prelude::*;

verus! {

/// The actions that are running, each with the token that cancels it.
#[derive(Debug)]
pub struct InFlight {
    tokens: HashMap<u64, CancellationToken>,
}

impl View for InFlight {
    type V = Map<u64, CancellationToken>;

    closed spec fn view(&self) -> Map<u64, CancellationToken> {
        self.tokens@
    }
}

impl InFlight {
    /// Nothing running.
    pub fn new() -> (r: InFlight)
        ensures
            r@ == Map::<u64, CancellationToken>::empty(),
    {
        broadcast use vstd::std_specs::hash::group_hash_axioms;

        InFlight { tokens: HashMap::new() }
    }

    /// An action begins, under a token of its own.
    pub fn begin(&mut self, cookie: Cookie) -> (r: CancellationToken)
        ensures
            final(self)@ == old(self)@.insert(cookie.0, r),
            !ctx::tripped(r),
    {
        broadcast use vstd::std_specs::hash::group_hash_axioms;

        let token = CancellationToken::new();
        self.tokens.insert(cookie.0, token.clone());
        token
    }

    /// Trip the token of an action, and no other. An action that is not running, or
    /// no longer, has none; the answer is then `false`.
    pub fn cancel(&mut self, cookie: Cookie) -> (r: bool)
        ensures
            r == old(self)@.contains_key(cookie.0),
            final(self)@ == (if r {
                old(self)@.insert(cookie.0, ctx::after_cancel(old(self)@[cookie.0]))
            } else {
                old(self)@
            }),
            r ==> ctx::tripped(final(self)@[cookie.0]),
    {
        broadcast use vstd::std_specs::hash::group_hash_axioms;

        let ghost before = self@;
        match self.tokens.remove(&cookie.0) {
            Some(mut t) => {
                ctx::trip(&mut t);
                self.tokens.insert(cookie.0, t);
                proof {
                    assert(self@ =~= before.insert(cookie.0, t));
                }
                true
            },
            None => {
                proof {
                    assert(self@ =~= before);
                }
                false
            },
        }
    }

    /// An action is over.
    pub fn end(&mut self, cookie: Cookie)
        ensures
            final(self)@ == old(self)@.remove(cookie.0),
    {
        broadcast use vstd::std_specs::hash::group_hash_axioms;

        self.tokens.remove(&cookie.0);
    }

    /// Number of running actions.
    pub fn len(&self) -> (r: usize)
        ensures
            r == self@.len(),
    {
        broadcast use vstd::std_specs::hash::group_hash_axioms;

        self.tokens.len()
    }

    /// `true` if nothing is running.
    pub fn is_empty(&self) -> (r: bool)
        ensures
            r == (self@.len() == 0),
    {
        self.len() == 0
    }
}

impl Default for InFlight {
    fn default() -> (r: InFlight)
        ensures
            r@ == Map::<u64, CancellationToken>::empty(),
    {
        InFlight::new()
    }
}

} // verus!
