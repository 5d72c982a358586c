//! What can go wrong inside a data mover.

use crate::text;
use vstd::prelude::*;

verus! {

/// Result alias for mover operations.
pub type MoverResult<T> = Result<T, MoverError>;

/// What can go wrong inside a data mover.
#[derive(Debug, PartialEq, Eq)]
pub enum MoverError {
    /// The daemon cancelled the action.
    Cancelled,
    /// The backend rejected the operation with a known errno.
    Backend {
        /// Positive POSIX errno value.
        errno: i32,
        /// Human-readable context.
        reason: String,
    },
    /// The backend failed for now; the same action may be tried again.
    Transient(String),
    /// The bytes are not what was archived.
    Integrity(String),
    /// Anything else.
    Other(String),
}

/// Model of [`MoverError`].
#[verifier::ext_equal]
pub enum MoverErrorView {
    Cancelled,
    Backend { errno: i32, reason: Seq<char> },
    Transient(Seq<char>),
    Integrity(Seq<char>),
    Other(Seq<char>),
}

impl View for MoverError {
    type V = MoverErrorView;

    open spec fn view(&self) -> MoverErrorView {
        match *self {
            MoverError::Cancelled => MoverErrorView::Cancelled,
            MoverError::Backend { errno, reason } => MoverErrorView::Backend {
                errno,
                reason: reason@,
            },
            MoverError::Transient(s) => MoverErrorView::Transient(s@),
            MoverError::Integrity(s) => MoverErrorView::Integrity(s@),
            MoverError::Other(s) => MoverErrorView::Other(s@),
        }
    }
}

impl MoverErrorView {
    /// Errno to report: `ECANCELED`, the backend's own, `EAGAIN`, and `EIO` for
    /// the rest.
    pub open spec fn errno(self) -> i32 {
        match self {
            MoverErrorView::Cancelled => 125,
            MoverErrorView::Backend { errno, .. } => errno,
            MoverErrorView::Transient(_) => 11,
            MoverErrorView::Integrity(_) => 5,
            MoverErrorView::Other(_) => 5,
        }
    }

    /// Text of the error.
    pub open spec fn message(self) -> Seq<char> {
        match self {
            MoverErrorView::Cancelled => "transfer cancelled by caller"@,
            MoverErrorView::Backend { errno, reason } => "backend errno "@ + text::dec_int(
                errno as int,
            ) + ": "@ + reason,
            MoverErrorView::Transient(s) => "transient backend failure: "@ + s,
            MoverErrorView::Integrity(s) => "integrity check failed: "@ + s,
            MoverErrorView::Other(s) => s,
        }
    }
}

impl MoverError {
    /// POSIX errno value to report for this failure.
    pub fn errno(&self) -> (r: i32)
        ensures
            r == self@.errno(),
    {
        match self {
            MoverError::Cancelled => 125,
            MoverError::Backend { errno, .. } => *errno,
            MoverError::Transient(_) => 11,
            MoverError::Integrity(_) => 5,
            MoverError::Other(_) => 5,
        }
    }

    /// Human-readable description.
    pub fn to_string(&self) -> (r: String)
        ensures
            r@ == self@.message(),
    {
        match self {
            MoverError::Cancelled => "transfer cancelled by caller".to_owned(),
            MoverError::Backend { errno, reason } => {
                let mut out = "backend errno ".to_owned();
                text::push_dec_int(&mut out, *errno as i64);
                out.append(": ");
                out.append(reason.as_str());
                out
            },
            MoverError::Transient(s) => {
                let mut out = "transient backend failure: ".to_owned();
                out.append(s.as_str());
                out
            },
            MoverError::Integrity(s) => {
                let mut out = "integrity check failed: ".to_owned();
                out.append(s.as_str());
                out
            },
            MoverError::Other(s) => s.clone(),
        }
    }
}

/// No failure is reported as success, unless a backend names errno 0.
pub proof fn lemma_failure_is_not_success(e: MoverErrorView)
    requires
        e matches MoverErrorView::Backend { errno, .. } ==> errno != 0,
    ensures
        e.errno() != 0,
{
}

} // verus!
