//! Errors surfaced from store operations.

use crate::model::action::ArStateView;
use crate::model::{ArState, Cookie, Extent};
use crate::text;
use vstd::prelude::*;

verus! {

/// Result alias for store operations.
pub type StoreResult<T> = Result<T, StoreError>;

/// Failures the store may report to the caller.
#[derive(Debug, PartialEq, Eq)]
pub enum StoreError {
    /// Tried to insert a record whose cookie already exists.
    DuplicateCookie(Cookie),
    /// Tried to operate on a cookie the store does not hold.
    UnknownCookie(Cookie),
    /// Progress would go backwards.
    ProgressRegression {
        /// The cookie whose progress was to be updated.
        cookie: Cookie,
        /// The currently stored extent.
        have: Extent,
        /// The extent the caller tried to write.
        got: Extent,
    },
    /// The action has already finished.
    TerminalTransition {
        /// The cookie whose state was to be changed.
        cookie: Cookie,
        /// The terminal state currently held.
        from: ArState,
    },
    /// The persistence backend failed.
    Backend(String),
}

/// Model of [`StoreError`].
#[verifier::ext_equal]
pub enum StoreErrorView {
    DuplicateCookie(Cookie),
    UnknownCookie(Cookie),
    ProgressRegression { cookie: Cookie, have: Extent, got: Extent },
    TerminalTransition { cookie: Cookie, from: ArStateView },
    Backend(Seq<char>),
}

impl View for StoreError {
    type V = StoreErrorView;

    open spec fn view(&self) -> StoreErrorView {
        match *self {
            StoreError::DuplicateCookie(c) => StoreErrorView::DuplicateCookie(c),
            StoreError::UnknownCookie(c) => StoreErrorView::UnknownCookie(c),
            StoreError::ProgressRegression { cookie, have, got } => {
                StoreErrorView::ProgressRegression { cookie, have, got }
            },
            StoreError::TerminalTransition { cookie, from } => StoreErrorView::TerminalTransition {
                cookie,
                from: from@,
            },
            StoreError::Backend(s) => StoreErrorView::Backend(s@),
        }
    }
}

/// What `{:?}` writes for an extent.
pub open spec fn extent_debug(e: Extent) -> Seq<char> {
    "Extent { offset: "@ + text::dec(e.offset as nat) + ", length: "@ + text::dec(e.length as nat)
        + " }"@
}

impl StoreErrorView {
    /// Text of the error.
    pub open spec fn message(self) -> Seq<char> {
        match self {
            StoreErrorView::DuplicateCookie(c) => "cookie "@ + text::hex0x(c.0 as nat)
                + " already present in store"@,
            StoreErrorView::UnknownCookie(c) => "cookie "@ + text::hex0x(c.0 as nat)
                + " not found in store"@,
            StoreErrorView::ProgressRegression { cookie, have, got } => {
                "progress would regress for cookie "@ + text::hex0x(cookie.0 as nat) + ": have "@
                    + extent_debug(have) + ", got "@ + extent_debug(got)
            },
            StoreErrorView::TerminalTransition { cookie, from } => "cookie "@ + text::hex0x(
                cookie.0 as nat,
            ) + " cannot transition out of terminal state "@ + from.debug(),
            StoreErrorView::Backend(s) => "backend error: "@ + s,
        }
    }
}

/// Append the structure of an extent.
fn push_extent(out: &mut String, e: Extent)
    ensures
        final(out)@ == old(out)@ + extent_debug(e),
{
    out.append("Extent { offset: ");
    text::push_dec(out, e.offset as u128);
    out.append(", length: ");
    text::push_dec(out, e.length as u128);
    out.append(" }");
    proof {
        assert(final(out)@ =~= old(out)@ + extent_debug(e));
    }
}

impl StoreError {
    /// Human-readable description.
    pub fn to_string(&self) -> (r: String)
        ensures
            r@ == self@.message(),
    {
        let mut out = String::new();
        match self {
            StoreError::DuplicateCookie(c) => {
                out.append("cookie ");
                text::push_hex0x(&mut out, c.0);
                out.append(" already present in store");
            },
            StoreError::UnknownCookie(c) => {
                out.append("cookie ");
                text::push_hex0x(&mut out, c.0);
                out.append(" not found in store");
            },
            StoreError::ProgressRegression { cookie, have, got } => {
                out.append("progress would regress for cookie ");
                text::push_hex0x(&mut out, cookie.0);
                out.append(": have ");
                push_extent(&mut out, *have);
                out.append(", got ");
                push_extent(&mut out, *got);
            },
            StoreError::TerminalTransition { cookie, from } => {
                out.append("cookie ");
                text::push_hex0x(&mut out, cookie.0);
                out.append(" cannot transition out of terminal state ");
                out.append(from.debug().as_str());
            },
            StoreError::Backend(s) => {
                out.append("backend error: ");
                out.append(s.as_str());
            },
        }
        proof {
            assert(out@ =~= self@.message());
        }
        out
    }
}

} // verus!
