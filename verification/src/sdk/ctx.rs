//! What a data mover is told about the action it works on.

use crate::model::payload;
use crate::model::{ActionKind, ArchiveId, BackendObject, Cookie, Extent, Fid};
use crate::sdk::error::{MoverError, MoverErrorView, MoverResult};
use bytes::Bytes;
use tokio_util::sync::CancellationToken;
use vstd::prelude::*;

verus! {

/// `tokio_util::sync::CancellationToken`, which the daemon trips to cancel.
#[verifier::external_type_specification]
#[verifier::external_body]
pub struct ExCancellationToken(tokio_util::sync::CancellationToken);

/// The token was tripped through this handle, or through the handle that this one
/// was cloned from before it was cloned. A token that was tripped stays tripped.
/// Other handles may trip the token too; that does not count here.
pub uninterp spec fn tripped(t: CancellationToken) -> bool;

/// The handle once it has been used to trip its token.
pub uninterp spec fn after_cancel(t: CancellationToken) -> CancellationToken;

/// `CancellationToken::new` makes a token of its own that is not cancelled.
pub assume_specification[ CancellationToken::new ]() -> (r: CancellationToken)
    ensures
        !tripped(r),
;

/// `CancellationToken::is_cancelled` says whether the token has been cancelled by
/// now, through whichever handle. One that was cancelled through this handle is.
/// Of the others nothing is claimed: other holders may cancel it at any time.
pub assume_specification[ CancellationToken::is_cancelled ](t: &CancellationToken) -> (r: bool)
    ensures
        tripped(*t) ==> r,
;

/// `CancellationToken::clone` makes a second handle on the same token.
pub assume_specification[ <CancellationToken as Clone>::clone ](t: &CancellationToken) -> (r:
    CancellationToken)
    ensures
        r == *t,
;

/// `CancellationToken::cancel` trips the token of the handle, for everyone who
/// holds it.
#[verifier::external_body]
pub(crate) fn trip(t: &mut CancellationToken)
    ensures
        *final(t) == after_cancel(*old(t)),
        tripped(*final(t)),
{
    t.cancel();
}

/// What one mover invocation receives. `P` is the handle on which the mover
/// reports progress.
pub struct ActionCtx<P> {
    /// Cookie issued by the kernel coordinator.
    pub cookie: Cookie,
    /// FID of the file the action targets.
    pub fid: Fid,
    /// Archive this action targets.
    pub archive_id: ArchiveId,
    /// What to do.
    pub kind: ActionKind,
    /// Byte range to operate on.
    pub extent: Extent,
    /// Path to read from.
    pub primary_path: String,
    /// Path to write to on `Restore`.
    pub write_path: Option<String>,
    /// The archived object, on `Restore` and `Remove`.
    pub existing: Option<BackendObject>,
    /// Path of the file below the mount root, on `Archive`, where it is known.
    pub lustre_path: Option<String>,
    /// Opaque per-action hint. Untrusted.
    pub hint: Bytes,
    /// Where to report progress.
    pub progress: P,
    /// Tripped to cancel the action.
    pub cancel: CancellationToken,
}

/// What a mover does when asked whether to go on.
pub fn cancel_outcome(cancelled: bool) -> (r: MoverResult<()>)
    ensures
        match r {
            Ok(_) => !cancelled,
            Err(e) => cancelled && e@ == MoverErrorView::Cancelled,
        },
{
    if cancelled {
        Err(MoverError::Cancelled)
    } else {
        Ok(())
    }
}

impl<P> ActionCtx<P> {
    /// `Err(Cancelled)` once cancellation has been requested. The only failure
    /// is cancellation. Whether another holder has cancelled by now is not known
    /// beforehand.
    pub fn check_cancel(&self) -> (r: MoverResult<()>)
        ensures
            tripped(self.cancel) ==> r is Err,
            r matches Err(e) ==> e@ == MoverErrorView::Cancelled,
    {
        cancel_outcome(self.cancel.is_cancelled())
    }

    /// A builder with nothing set.
    pub fn builder() -> (r: ActionCtxBuilder<P>)
        ensures
            r == ActionCtxBuilder::<P>::blank(),
    {
        ActionCtxBuilder::new()
    }
}

/// Assembles an [`ActionCtx`].
pub struct ActionCtxBuilder<P> {
    pub cookie: Option<Cookie>,
    pub fid: Option<Fid>,
    pub archive_id: Option<ArchiveId>,
    pub kind: Option<ActionKind>,
    pub extent: Option<Extent>,
    pub primary_path: Option<String>,
    pub write_path: Option<String>,
    pub existing: Option<BackendObject>,
    pub lustre_path: Option<String>,
    pub hint: Option<Bytes>,
    pub progress: Option<P>,
    pub cancel: Option<CancellationToken>,
}

impl<P> ActionCtxBuilder<P> {
    /// Nothing set.
    pub open spec fn blank() -> ActionCtxBuilder<P> {
        ActionCtxBuilder {
            cookie: None,
            fid: None,
            archive_id: None,
            kind: None,
            extent: None,
            primary_path: None,
            write_path: None,
            existing: None,
            lustre_path: None,
            hint: None,
            progress: None,
            cancel: None,
        }
    }

    /// Everything that has no default is set.
    pub open spec fn complete(self) -> bool {
        &&& self.cookie is Some
        &&& self.fid is Some
        &&& self.archive_id is Some
        &&& self.kind is Some
        &&& self.progress is Some
    }

    /// A builder with nothing set.
    pub fn new() -> (r: ActionCtxBuilder<P>)
        ensures
            r == ActionCtxBuilder::<P>::blank(),
    {
        ActionCtxBuilder {
            cookie: None,
            fid: None,
            archive_id: None,
            kind: None,
            extent: None,
            primary_path: None,
            write_path: None,
            existing: None,
            lustre_path: None,
            hint: None,
            progress: None,
            cancel: None,
        }
    }

    /// Mandatory: cookie.
    pub fn cookie(self, c: Cookie) -> (r: ActionCtxBuilder<P>)
        ensures
            r == (ActionCtxBuilder { cookie: Some(c), ..self }),
    {
        ActionCtxBuilder { cookie: Some(c), ..self }
    }

    /// Mandatory: FID.
    pub fn fid(self, f: Fid) -> (r: ActionCtxBuilder<P>)
        ensures
            r == (ActionCtxBuilder { fid: Some(f), ..self }),
    {
        ActionCtxBuilder { fid: Some(f), ..self }
    }

    /// Mandatory: archive.
    pub fn archive_id(self, a: ArchiveId) -> (r: ActionCtxBuilder<P>)
        ensures
            r == (ActionCtxBuilder { archive_id: Some(a), ..self }),
    {
        ActionCtxBuilder { archive_id: Some(a), ..self }
    }

    /// Mandatory: kind.
    pub fn kind(self, k: ActionKind) -> (r: ActionCtxBuilder<P>)
        ensures
            r == (ActionCtxBuilder { kind: Some(k), ..self }),
    {
        ActionCtxBuilder { kind: Some(k), ..self }
    }

    /// Defaults to the whole file.
    pub fn extent(self, e: Extent) -> (r: ActionCtxBuilder<P>)
        ensures
            r == (ActionCtxBuilder { extent: Some(e), ..self }),
    {
        ActionCtxBuilder { extent: Some(e), ..self }
    }

    /// Defaults to the empty path.
    pub fn primary_path(self, p: String) -> (r: ActionCtxBuilder<P>)
        ensures
            r == (ActionCtxBuilder { primary_path: Some(p), ..self }),
    {
        ActionCtxBuilder { primary_path: Some(p), ..self }
    }

    /// Optional restore destination.
    pub fn write_path(self, p: String) -> (r: ActionCtxBuilder<P>)
        ensures
            r == (ActionCtxBuilder { write_path: Some(p), ..self }),
    {
        ActionCtxBuilder { write_path: Some(p), ..self }
    }

    /// Optional archived object.
    pub fn existing(self, o: BackendObject) -> (r: ActionCtxBuilder<P>)
        ensures
            r == (ActionCtxBuilder { existing: Some(o), ..self }),
    {
        ActionCtxBuilder { existing: Some(o), ..self }
    }

    /// Optional path below the mount root.
    pub fn lustre_path(self, p: String) -> (r: ActionCtxBuilder<P>)
        ensures
            r == (ActionCtxBuilder { lustre_path: Some(p), ..self }),
    {
        ActionCtxBuilder { lustre_path: Some(p), ..self }
    }

    /// Defaults to no hint.
    pub fn hint(self, h: Bytes) -> (r: ActionCtxBuilder<P>)
        ensures
            r == (ActionCtxBuilder { hint: Some(h), ..self }),
    {
        ActionCtxBuilder { hint: Some(h), ..self }
    }

    /// Mandatory: where to report progress.
    pub fn progress(self, p: P) -> (r: ActionCtxBuilder<P>)
        ensures
            r == (ActionCtxBuilder { progress: Some(p), ..self }),
    {
        ActionCtxBuilder { progress: Some(p), ..self }
    }

    /// Defaults to a fresh token.
    pub fn cancel(self, t: CancellationToken) -> (r: ActionCtxBuilder<P>)
        ensures
            r == (ActionCtxBuilder { cancel: Some(t), ..self }),
    {
        ActionCtxBuilder { cancel: Some(t), ..self }
    }

    /// Build the context. Everything mandatory must be set.
    pub fn build(self) -> (r: ActionCtx<P>)
        requires
            self.complete(),
        ensures
            Some(r.cookie) == self.cookie,
            Some(r.fid) == self.fid,
            Some(r.archive_id) == self.archive_id,
            Some(r.kind) == self.kind,
            r.extent == (match self.extent {
                Some(e) => e,
                None => Extent::spec_whole(),
            }),
            r.primary_path@ == (match self.primary_path {
                Some(p) => p@,
                None => Seq::<char>::empty(),
            }),
            r.write_path == self.write_path,
            r.existing == self.existing,
            r.lustre_path == self.lustre_path,
            payload::bytes_of(r.hint) == (match self.hint {
                Some(h) => payload::bytes_of(h),
                None => Seq::<u8>::empty(),
            }),
            Some(r.progress) == self.progress,
            self.cancel matches Some(t) ==> r.cancel == t,
            self.cancel is None ==> !tripped(r.cancel),
    {
        ActionCtx {
            cookie: self.cookie.expect("cookie required"),
            fid: self.fid.expect("fid required"),
            archive_id: self.archive_id.expect("archive_id required"),
            kind: self.kind.expect("kind required"),
            extent: match self.extent {
                Some(e) => e,
                None => Extent::whole(),
            },
            primary_path: match self.primary_path {
                Some(p) => p,
                None => String::new(),
            },
            write_path: self.write_path,
            existing: self.existing,
            lustre_path: self.lustre_path,
            hint: match self.hint {
                Some(h) => h,
                None => Bytes::new(),
            },
            progress: self.progress.expect("progress reporter required"),
            cancel: match self.cancel {
                Some(t) => t,
                None => CancellationToken::new(),
            },
        }
    }
}

impl<P> Default for ActionCtxBuilder<P> {
    fn default() -> (r: ActionCtxBuilder<P>)
        ensures
            r == ActionCtxBuilder::<P>::blank(),
    {
        ActionCtxBuilder::new()
    }
}

} // verus!
