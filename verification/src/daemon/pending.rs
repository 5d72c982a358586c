//! The actions that agents are working on, and where their files are.

use crate::model::{ActionKind, Cookie};
use dashmap::DashMap;
use vstd::prelude::*;

verus! {

/// Path and kind of each pending action by cookie.
pub type Pending = Map<u64, (Seq<char>, ActionKind)>;

/// The entries a map holds. The wrappers below take the map exclusively where
/// they change it, so that no other handle changes it in between.
pub uninterp spec fn pending_of(m: DashMap<u64, (String, ActionKind)>) -> Pending;

/// `DashMap::new` makes an empty map.
#[verifier::external_body]
fn pending_new() -> (m: DashMap<u64, (String, ActionKind)>)
    ensures
        pending_of(m) == Pending::empty(),
{
    DashMap::new()
}

/// `DashMap::insert` files the value under the key, in place of any other.
#[verifier::external_body]
fn pending_insert(m: &mut DashMap<u64, (String, ActionKind)>, k: u64, v: (String, ActionKind))
    ensures
        pending_of(*final(m)) == pending_of(*old(m)).insert(k, (v.0@, v.1)),
{
    m.insert(k, v);
}

/// `DashMap::get` finds the value under the key; its path is handed out as a
/// clone.
#[verifier::external_body]
fn pending_get(m: &DashMap<u64, (String, ActionKind)>, k: u64) -> (r: Option<(String, ActionKind)>)
    ensures
        match r {
            Some(v) => pending_of(*m).contains_key(k) && pending_of(*m)[k] == (v.0@, v.1),
            None => !pending_of(*m).contains_key(k),
        },
{
    m.get(&k).map(|e| e.value().clone())
}

/// `DashMap::remove` takes the entry out, if it is there.
#[verifier::external_body]
fn pending_remove(m: &mut DashMap<u64, (String, ActionKind)>, k: u64)
    ensures
        pending_of(*final(m)) == pending_of(*old(m)).remove(k),
{
    m.remove(&k);
}

/// The actions that agents are working on.
#[derive(Debug)]
pub struct PendingPaths {
    inner: DashMap<u64, (String, ActionKind)>,
}

impl View for PendingPaths {
    type V = Pending;

    closed spec fn view(&self) -> Pending {
        pending_of(self.inner)
    }
}

impl PendingPaths {
    /// Nothing pending.
    pub fn new() -> (r: PendingPaths)
        ensures
            r@ == Pending::empty(),
    {
        PendingPaths { inner: pending_new() }
    }

    /// An agent is about to get the action.
    pub fn insert(&mut self, cookie: Cookie, path: String, kind: ActionKind)
        ensures
            final(self)@ == old(self)@.insert(cookie.0, (path@, kind)),
    {
        pending_insert(&mut self.inner, cookie.0, (path, kind));
    }

    /// Path and kind of a pending action.
    pub fn get(&self, cookie: Cookie) -> (r: Option<(String, ActionKind)>)
        ensures
            match r {
                Some(v) => self@.contains_key(cookie.0) && self@[cookie.0] == (v.0@, v.1),
                None => !self@.contains_key(cookie.0),
            },
    {
        pending_get(&self.inner, cookie.0)
    }

    /// The action is over; the kind it had is handed out.
    pub fn remove(&mut self, cookie: Cookie) -> (r: Option<ActionKind>)
        ensures
            final(self)@ == old(self)@.remove(cookie.0),
            r == (if old(self)@.contains_key(cookie.0) {
                Some(old(self)@[cookie.0].1)
            } else {
                None
            }),
    {
        let kind = match self.get(cookie) {
            Some(v) => Some(v.1),
            None => None,
        };
        pending_remove(&mut self.inner, cookie.0);
        kind
    }
}

impl Default for PendingPaths {
    fn default() -> (r: PendingPaths)
        ensures
            r@ == Pending::empty(),
    {
        PendingPaths::new()
    }
}

} // verus!
