//! In-memory copytool, for running everything above it without a cluster.
//!
//! It records what it was told, so that callers can look at it afterwards.

use crate::llapi::error::{HsmError, HsmErrorView, Result};
use crate::llapi::lifecycle;
use crate::llapi::lifecycle::{
    ActionHandle, EndStatus, HasCookieLifecycle, ReceivedAction, ReceivedView,
};
use crate::model::action::ActionView;
use crate::model::{ActionKind, ArchiveId, Cookie, Extent, Fid};
use bytes::Bytes;
use std::collections::HashMap;
use std::collections::VecDeque;
use vstd::prelude::*;

verus! {

/// `EINVAL`.
pub const EINVAL: i32 = 22;

/// `EEXIST`.
pub const EEXIST: i32 = 17;

/// How an action ended.
#[derive(Clone, Copy, Debug, PartialEq, Eq, Structural)]
pub enum MockOutcome {
    /// The action was ended with that status.
    Ended(EndStatus),
    /// The action was given up without being ended.
    Abandoned,
}

/// What the mock saw at the end of one action.
#[derive(Clone, Copy, Debug, PartialEq, Eq, Structural)]
pub struct MockCompletion {
    /// Cookie of the action.
    pub cookie: Cookie,
    /// Final extent reported, or zero for an abandoned action.
    pub extent: Extent,
    /// How the action ended.
    pub outcome: MockOutcome,
}

/// In-memory copytool.
#[derive(Debug)]
pub struct MockCopytool {
    pending: VecDeque<ReceivedAction>,
    in_flight: HashMap<u64, Extent>,
    progress_log: Vec<(Cookie, Extent)>,
    completions: Vec<MockCompletion>,
}

/// Model of [`MockCopytool`].
#[verifier::ext_equal]
pub struct MockView {
    /// Actions the next `recv` returns.
    pub pending: Seq<ReceivedView>,
    /// Actions in flight, with the extent last reported.
    pub in_flight: Map<u64, Extent>,
    /// Accepted progress updates.
    pub progress_log: Seq<(Cookie, Extent)>,
    /// Ended and abandoned actions.
    pub completions: Seq<MockCompletion>,
}

impl View for MockCopytool {
    type V = MockView;

    closed spec fn view(&self) -> MockView {
        MockView {
            pending: lifecycle::received_views(self.pending@),
            in_flight: self.in_flight@,
            progress_log: self.progress_log@,
            completions: self.completions@,
        }
    }
}

impl MockView {
    /// Nothing pending, nothing in flight, nothing seen.
    pub open spec fn blank() -> MockView {
        MockView {
            pending: Seq::empty(),
            in_flight: Map::empty(),
            progress_log: Seq::empty(),
            completions: Seq::empty(),
        }
    }

    /// After an action was begun.
    pub open spec fn begun(self, cookie: Cookie) -> MockView {
        MockView {
            in_flight: self.in_flight.insert(cookie.0, Extent { offset: 0, length: 0 }),
            ..self
        }
    }

    /// Why a progress update is refused, if it is.
    pub open spec fn progress_refusal(self, cookie: Cookie, e: Extent) -> Option<HsmErrorView> {
        if !self.in_flight.contains_key(cookie.0) {
            Some(HsmErrorView::UnknownCookie(cookie.0))
        } else if e.offset < self.in_flight[cookie.0].offset {
            Some(HsmErrorView::Progress(EINVAL))
        } else {
            None
        }
    }

    /// After an accepted progress update.
    pub open spec fn advanced(self, cookie: Cookie, e: Extent) -> MockView {
        MockView {
            in_flight: self.in_flight.insert(cookie.0, e),
            progress_log: self.progress_log.push((cookie, e)),
            ..self
        }
    }

    /// After an action in flight is over.
    pub open spec fn completed(self, c: MockCompletion) -> MockView {
        MockView {
            in_flight: self.in_flight.remove(c.cookie.0),
            completions: self.completions.push(c),
            ..self
        }
    }
}

impl Default for MockCopytool {
    fn default() -> (r: MockCopytool)
        ensures
            r@ == MockView::blank(),
    {
        MockCopytool::new()
    }
}

impl MockCopytool {
    /// A mock with no pending actions.
    pub fn new() -> (r: MockCopytool)
        ensures
            r@ == MockView::blank(),
    {
        broadcast use vstd::std_specs::hash::group_hash_axioms;

        let r = MockCopytool {
            pending: VecDeque::new(),
            in_flight: HashMap::new(),
            progress_log: Vec::new(),
            completions: Vec::new(),
        };
        proof {
            assert(r@ =~= MockView::blank());
        }
        r
    }

    /// Enqueue an action for the next [`recv`](Self::recv).
    pub fn enqueue(&mut self, a: ReceivedAction)
        ensures
            final(self)@ == (MockView { pending: old(self)@.pending.push(a@), ..old(self)@ }),
    {
        let ghost before = self@;
        let ghost v = a@;
        self.pending.push_back(a);
        proof {
            assert(self@.pending =~= before.pending.push(v));
        }
    }

    /// Enqueue an action with `dfid == fid`, no data, no group and the
    /// filesystem name `mock`.
    pub fn enqueue_simple(
        &mut self,
        cookie: Cookie,
        fid: Fid,
        archive: ArchiveId,
        kind: ActionKind,
        extent: Extent,
    )
        ensures
            final(self)@ == (MockView {
                pending: old(self)@.pending.push(
                    ReceivedView {
                        action: ActionView {
                            cookie,
                            fid,
                            dfid: fid,
                            archive_id: archive,
                            kind,
                            extent,
                            gid: 0,
                            data: Seq::<u8>::empty(),
                        },
                        fsname: "mock"@,
                    },
                ),
                ..old(self)@
            }),
    {
        self.enqueue(
            ReceivedAction {
                cookie,
                fid,
                dfid: fid,
                archive_id: archive,
                kind,
                extent,
                gid: 0,
                data: Bytes::new(),
                fsname: "mock".to_owned(),
            },
        );
    }

    /// Take all pending actions; none pending is not an error.
    pub fn recv(&mut self) -> (r: Result<Vec<ReceivedAction>>)
        ensures
            r matches Ok(v) && lifecycle::received_views(v@) == old(self)@.pending,
            final(self)@ == (MockView { pending: Seq::empty(), ..old(self)@ }),
    {
        let mut out: Vec<ReceivedAction> = Vec::new();
        let ghost before = self@;
        proof {
            assert(lifecycle::received_views(out@) + self@.pending =~= before.pending);
        }
        while self.pending.len() > 0
            invariant
                lifecycle::received_views(out@) + self@.pending == before.pending,
                self@ == (MockView { pending: self@.pending, ..before }),
            decreases self.pending.len(),
        {
            let ghost done = lifecycle::received_views(out@);
            let ghost rest = self@.pending;
            if let Some(a) = self.pending.pop_front() {
                out.push(a);
            }
            proof {
                assert(lifecycle::received_views(out@) =~= done.push(rest[0]));
                assert(self@.pending =~= rest.drop_first());
                assert(lifecycle::received_views(out@) + self@.pending =~= done + rest);
            }
        }
        proof {
            assert(self@.pending =~= Seq::empty());
            assert(lifecycle::received_views(out@) =~= before.pending);
        }
        Ok(out)
    }

    /// Begin processing an action. A cookie that is already in flight is an
    /// error.
    pub fn begin(&mut self, cookie: Cookie) -> (r: Result<ActionHandle<'_, MockCopytool>>)
        ensures
            match r {
                Ok(h) => {
                    &&& !old(self)@.in_flight.contains_key(cookie.0)
                    &&& h.cookie == cookie
                    &&& h.parent@ == old(self)@.begun(cookie)
                    &&& *final(h.parent) == *final(self)
                },
                Err(e) => {
                    &&& old(self)@.in_flight.contains_key(cookie.0)
                    &&& e@ == HsmErrorView::Begin(EEXIST)
                    &&& final(self)@ == old(self)@
                },
            },
    {
        broadcast use vstd::std_specs::hash::group_hash_axioms;

        if self.in_flight.contains_key(&cookie.0) {
            return Err(HsmError::Begin(EEXIST));
        }
        self.in_flight.insert(cookie.0, Extent { offset: 0, length: 0 });
        Ok(ActionHandle::new(self, cookie))
    }

    /// All ended and abandoned actions so far.
    pub fn completions(&self) -> (r: &[MockCompletion])
        ensures
            r@ == self@.completions,
    {
        self.completions.as_slice()
    }

    /// All accepted progress updates so far.
    pub fn progress_log(&self) -> (r: &[(Cookie, Extent)])
        ensures
            r@ == self@.progress_log,
    {
        self.progress_log.as_slice()
    }

    /// Cookies in flight, each once, in no particular order.
    pub fn in_flight_cookies(&self) -> (r: Vec<Cookie>)
        ensures
            r@.no_duplicates(),
            forall|k: u64| #[trigger] r@.contains(Cookie(k)) <==> self@.in_flight.contains_key(k),
    {
        broadcast use vstd::std_specs::hash::group_hash_axioms;

        let mut out: Vec<Cookie> = Vec::new();
        for k in it: self.in_flight.keys()
            invariant
                out@.len() == it.index(),
                forall|i: int| 0 <= i < it.index() ==> (#[trigger] out@[i]).0 == *it.seq()[i],
                it.seq().no_duplicates(),
                it.seq().unref().to_set() == self@.in_flight.dom(),
                forall|k: u64| #[trigger]
                    out@.contains(Cookie(k)) <==> it.seq().take(it.index()).unref().contains(k),
                it.seq().take(it.seq().len() as int) == it.seq(),
        {
            let ghost before = out@;
            let ghost seen = it.seq().take(it.index()).unref();
            let ghost more = it.seq().take(it.index() + 1).unref();
            out.push(Cookie(*k));
            proof {
                assert(more =~= seen.push(*k));
                assert forall|x: u64| #[trigger] out@.contains(Cookie(x)) <==> more.contains(x) by {
                    if out@.contains(Cookie(x)) {
                        let i = choose|i: int| 0 <= i < out@.len() && out@[i] == Cookie(x);
                        assert(more[i] == x);
                    }
                    if more.contains(x) {
                        let i = choose|i: int| 0 <= i < more.len() && more[i] == x;
                        assert(out@[i] == Cookie(x));
                    }
                }
            }
        }
        proof {
            assert forall|k: u64| #[trigger] out@.contains(Cookie(k)) <==> self@.in_flight.contains_key(
                k,
            ) by {
                assert(self@.in_flight.dom().contains(k) <==> self@.in_flight.contains_key(k));
            }
        }
        out
    }
}

impl HasCookieLifecycle for MockCopytool {
    open spec fn active(&self) -> lifecycle::Cookies {
        self@.in_flight.dom()
    }

    open spec fn progressed(
        before: MockCopytool,
        after: MockCopytool,
        cookie: Cookie,
        e: Extent,
        r: Result<()>,
    ) -> bool {
        match before@.progress_refusal(cookie, e) {
            None => r is Ok && after@ == before@.advanced(cookie, e),
            Some(x) => r matches Err(y) && y@ == x && after@ == before@,
        }
    }

    open spec fn ended(
        before: MockCopytool,
        after: MockCopytool,
        cookie: Cookie,
        e: Extent,
        status: EndStatus,
        r: Result<()>,
    ) -> bool {
        if before@.in_flight.contains_key(cookie.0) {
            r is Ok && after@ == before@.completed(
                MockCompletion { cookie, extent: e, outcome: MockOutcome::Ended(status) },
            )
        } else {
            lifecycle::unknown_cookie(r, cookie) && after@ == before@
        }
    }

    open spec fn abandoned(before: MockCopytool, after: MockCopytool, cookie: Cookie) -> bool {
        if before@.in_flight.contains_key(cookie.0) {
            after@ == before@.completed(
                MockCompletion {
                    cookie,
                    extent: Extent { offset: 0, length: 0 },
                    outcome: MockOutcome::Abandoned,
                },
            )
        } else {
            after@ == before@
        }
    }

    fn cookie_progress(&mut self, cookie: Cookie, e: Extent) -> (r: Result<()>) {
        broadcast use vstd::std_specs::hash::group_hash_axioms;

        let last: Extent = match self.in_flight.get(&cookie.0) {
            Some(x) => *x,
            None => {
                return Err(HsmError::UnknownCookie(cookie.0));
            },
        };
        if e.offset < last.offset {
            return Err(HsmError::Progress(EINVAL));
        }
        let ghost before = self@;
        self.in_flight.insert(cookie.0, e);
        self.progress_log.push((cookie, e));
        proof {
            assert(self@ =~= before.advanced(cookie, e));
            assert(self@.in_flight.dom() =~= before.in_flight.dom());
        }
        Ok(())
    }

    fn cookie_end(&mut self, cookie: Cookie, e: Extent, status: EndStatus) -> (r: Result<()>) {
        broadcast use vstd::std_specs::hash::group_hash_axioms;

        let ghost before = self@;
        if self.in_flight.remove(&cookie.0).is_none() {
            proof {
                assert(self@ =~= before);
                assert(before.in_flight.dom().remove(cookie.0) =~= before.in_flight.dom());
            }
            return Err(HsmError::UnknownCookie(cookie.0));
        }
        self.completions.push(
            MockCompletion { cookie, extent: e, outcome: MockOutcome::Ended(status) },
        );
        proof {
            assert(self@.in_flight.dom() =~= before.in_flight.dom().remove(cookie.0));
        }
        Ok(())
    }

    fn cookie_abandon(&mut self, cookie: Cookie) {
        broadcast use vstd::std_specs::hash::group_hash_axioms;

        let ghost before = self@;
        if self.in_flight.remove(&cookie.0).is_some() {
            self.completions.push(
                MockCompletion {
                    cookie,
                    extent: Extent { offset: 0, length: 0 },
                    outcome: MockOutcome::Abandoned,
                },
            );
        } else {
            proof {
                assert(self@ =~= before);
            }
        }
        proof {
            assert(self@.in_flight.dom() =~= before.in_flight.dom().remove(cookie.0));
        }
    }
}

/// Every action that was begun is in flight or has completed, exactly once:
/// beginning one adds one to the two counts together, a progress update and a
/// completion keep their sum, and a completed action can be begun anew.
pub proof fn lemma_begun_once(v: MockView, cookie: Cookie, e: Extent, c: MockCompletion)
    requires
        v.in_flight.dom().finite(),
    ensures
        !v.in_flight.contains_key(cookie.0) ==> v.begun(cookie).in_flight.len() + v.begun(
            cookie,
        ).completions.len() == v.in_flight.len() + v.completions.len() + 1,
        v.progress_refusal(cookie, e) is None ==> v.advanced(cookie, e).in_flight.len()
            + v.advanced(cookie, e).completions.len() == v.in_flight.len() + v.completions.len(),
        v.in_flight.contains_key(c.cookie.0) ==> v.completed(c).in_flight.len() + v.completed(
            c,
        ).completions.len() == v.in_flight.len() + v.completions.len(),
        !v.completed(c).in_flight.contains_key(c.cookie.0),
{
    if v.progress_refusal(cookie, e) is None {
        assert(v.in_flight.insert(cookie.0, e).dom() =~= v.in_flight.dom());
    }
}

/// The extent last reported for an action in flight never goes backwards.
pub proof fn lemma_progress_forward(v: MockView, cookie: Cookie, e: Extent, k: u64)
    requires
        v.progress_refusal(cookie, e) is None,
        v.in_flight.contains_key(k),
    ensures
        v.advanced(cookie, e).in_flight.contains_key(k),
        v.advanced(cookie, e).in_flight[k].offset >= v.in_flight[k].offset,
{
}

} // verus!
