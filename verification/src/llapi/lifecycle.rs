//! Received actions, how they end, and the handle that ties begin to end.

use crate::llapi::error::{HsmErrorView, Result};
use crate::model::action::ActionView;
use crate::model::payload;
use crate::model::{Action, ActionKind, ArchiveId, Cookie, Extent, Fid};
use bytes::Bytes;
use vstd::prelude::*;

verus! {

/// One requested action as it came off the wire.
#[derive(Debug, PartialEq, Eq)]
pub struct ReceivedAction {
    /// Cookie issued by the kernel coordinator.
    pub cookie: Cookie,
    /// FID of the file the action targets.
    pub fid: Fid,
    /// Data FID.
    pub dfid: Fid,
    /// Archive of the list the action came in.
    pub archive_id: ArchiveId,
    /// What the kernel wants done.
    pub kind: ActionKind,
    /// Byte range to operate on.
    pub extent: Extent,
    /// Group-lock id (0 means none).
    pub gid: u64,
    /// Opaque per-action data. Untrusted.
    pub data: Bytes,
    /// Filesystem name of the list the action came in.
    pub fsname: String,
}

/// Model of [`ReceivedAction`].
#[verifier::ext_equal]
pub struct ReceivedView {
    pub action: ActionView,
    pub fsname: Seq<char>,
}

impl View for ReceivedAction {
    type V = ReceivedView;

    open spec fn view(&self) -> ReceivedView {
        ReceivedView {
            action: ActionView {
                cookie: self.cookie,
                fid: self.fid,
                dfid: self.dfid,
                archive_id: self.archive_id,
                kind: self.kind,
                extent: self.extent,
                gid: self.gid,
                data: payload::bytes_of(self.data),
            },
            fsname: self.fsname@,
        }
    }
}

impl Clone for ReceivedAction {
    fn clone(&self) -> (r: ReceivedAction)
        ensures
            r@ == self@,
    {
        ReceivedAction {
            cookie: self.cookie,
            fid: self.fid,
            dfid: self.dfid,
            archive_id: self.archive_id,
            kind: self.kind,
            extent: self.extent,
            gid: self.gid,
            data: self.data.clone(),
            fsname: self.fsname.clone(),
        }
    }
}

/// The models of a list of received actions.
pub open spec fn received_views(v: Seq<ReceivedAction>) -> Seq<ReceivedView> {
    v.map_values(|a: ReceivedAction| a@)
}

impl ReceivedAction {
    /// The action to schedule.
    pub fn into_action(self) -> (r: Action)
        ensures
            r@ == self@.action,
    {
        Action {
            cookie: self.cookie,
            fid: self.fid,
            dfid: self.dfid,
            archive_id: self.archive_id,
            kind: self.kind,
            extent: self.extent,
            gid: self.gid,
            data: self.data,
        }
    }
}

/// Outcome reported back to the kernel.
#[derive(Clone, Copy, Debug, PartialEq, Eq, Structural)]
pub enum EndStatus {
    /// Action completed successfully.
    Success,
    /// Action failed with a positive errno.
    Failed(i32),
    /// Action was cancelled.
    Cancelled,
}

impl EndStatus {
    /// Errno to report: 0 on success, `ECANCELED` on cancellation.
    pub fn errno(self) -> (r: i32)
        ensures
            r == (match self {
                EndStatus::Success => 0i32,
                EndStatus::Failed(rc) => rc,
                EndStatus::Cancelled => 125i32,
            }),
    {
        match self {
            EndStatus::Success => 0,
            EndStatus::Failed(rc) => rc,
            EndStatus::Cancelled => 125,
        }
    }
}

/// `r` says that no action of that cookie is in flight.
pub open spec fn unknown_cookie<T>(r: Result<T>, cookie: Cookie) -> bool {
    r matches Err(e) && e@ == HsmErrorView::UnknownCookie(cookie.0)
}

/// A set of actions, by cookie.
pub type Cookies = Set<u64>;

/// What a copytool provides for [`ActionHandle`] to drive it.
pub trait HasCookieLifecycle: Sized {
    /// Cookies begun and neither ended nor abandoned.
    spec fn active(&self) -> Cookies;

    /// What a progress update does to the copytool, and what it answers.
    spec fn progressed(before: Self, after: Self, cookie: Cookie, e: Extent, r: Result<()>) -> bool;

    /// What the terminal event does to the copytool, and what it answers.
    spec fn ended(
        before: Self,
        after: Self,
        cookie: Cookie,
        e: Extent,
        status: EndStatus,
        r: Result<()>,
    ) -> bool;

    /// What abandoning an action does to the copytool.
    spec fn abandoned(before: Self, after: Self, cookie: Cookie) -> bool;

    /// Send a non-terminal progress update to the coordinator.
    fn cookie_progress(&mut self, cookie: Cookie, e: Extent) -> (r: Result<()>)
        ensures
            Self::progressed(*old(self), *final(self), cookie, e, r),
            final(self).active() == old(self).active(),
            !old(self).active().contains(cookie.0) ==> unknown_cookie(r, cookie),
    ;

    /// Send the terminal event. The action is over, whatever the coordinator
    /// answers.
    fn cookie_end(&mut self, cookie: Cookie, e: Extent, status: EndStatus) -> (r: Result<()>)
        ensures
            Self::ended(*old(self), *final(self), cookie, e, status, r),
            final(self).active() == old(self).active().remove(cookie.0),
            !old(self).active().contains(cookie.0) ==> unknown_cookie(r, cookie),
    ;

    /// Clean up an action that was begun and will not be ended.
    fn cookie_abandon(&mut self, cookie: Cookie)
        ensures
            Self::abandoned(*old(self), *final(self), cookie),
            final(self).active() == old(self).active().remove(cookie.0),
    ;
}

/// Handle for an in-flight action. It is used up by [`ActionHandle::end`] or
/// [`ActionHandle::abandon`], so that an action is finished once.
pub struct ActionHandle<'c, C: HasCookieLifecycle> {
    /// The copytool that began the action, borrowed while the handle lives.
    pub parent: &'c mut C,
    /// The action.
    pub cookie: Cookie,
}

impl<'c, C: HasCookieLifecycle> ActionHandle<'c, C> {
    /// A handle on an action that `parent` has begun.
    pub fn new(parent: &'c mut C, cookie: Cookie) -> (r: ActionHandle<'c, C>)
        ensures
            *r.parent == *old(parent),
            *final(r.parent) == *final(parent),
            r.cookie == cookie,
    {
        ActionHandle { parent, cookie }
    }

    /// Cookie this handle tracks.
    pub fn cookie(&self) -> (r: Cookie)
        ensures
            r == self.cookie,
    {
        self.cookie
    }

    /// Send a progress update.
    pub fn progress(&mut self, e: Extent) -> (r: Result<()>)
        ensures
            final(self).cookie == old(self).cookie,
            *final(final(self).parent) == *final(old(self).parent),
            C::progressed(*old(self).parent, *final(self).parent, old(self).cookie, e, r),
            final(self).parent.active() == old(self).parent.active(),
            !old(self).parent.active().contains(old(self).cookie.0) ==> unknown_cookie(
                r,
                old(self).cookie,
            ),
    {
        self.parent.cookie_progress(self.cookie, e)
    }

    /// Terminate the action with the given status.
    pub fn end(self, e: Extent, status: EndStatus) -> (r: Result<()>)
        ensures
            C::ended(*old(self.parent), *final(self.parent), self.cookie, e, status, r),
            final(self.parent).active() == old(self.parent).active().remove(self.cookie.0),
            !old(self.parent).active().contains(self.cookie.0) ==> unknown_cookie(r, self.cookie),
    {
        self.parent.cookie_end(self.cookie, e, status)
    }

    /// Give the action up without ending it.
    pub fn abandon(self)
        ensures
            C::abandoned(*old(self.parent), *final(self.parent), self.cookie),
            final(self.parent).active() == old(self.parent).active().remove(self.cookie.0),
    {
        self.parent.cookie_abandon(self.cookie);
    }
}

} // verus!
