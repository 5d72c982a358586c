//! Failures of the copytool interface.

use crate::text;
use crate::uapi::conv::ConvError;
use vstd::prelude::*;

verus! {

/// Result alias for copytool operations.
pub type Result<T> = std::result::Result<T, HsmError>;

/// Failures of the copytool interface.
#[derive(Debug, PartialEq, Eq)]
pub enum HsmError {
    /// Registering as a copytool failed.
    Register {
        /// The mount point.
        mount: String,
        /// Positive errno.
        errno: i32,
    },
    /// Receiving an action list failed.
    Recv(i32),
    /// Beginning an action failed.
    Begin(i32),
    /// Ending an action failed.
    End(i32),
    /// Reporting progress failed.
    Progress(i32),
    /// An action list does not hang together.
    MalformedActionList {
        /// Human-readable explanation.
        reason: String,
    },
    /// A wire action number that no action kind has.
    UnknownActionKind(u32),
    /// No action of that cookie is in flight.
    UnknownCookie(u64),
    /// No archive was given to register for.
    EmptyArchiveList,
}

/// Model of [`HsmError`].
#[verifier::ext_equal]
pub enum HsmErrorView {
    Register { mount: Seq<char>, errno: i32 },
    Recv(i32),
    Begin(i32),
    End(i32),
    Progress(i32),
    MalformedActionList { reason: Seq<char> },
    UnknownActionKind(u32),
    UnknownCookie(u64),
    EmptyArchiveList,
}

impl View for HsmError {
    type V = HsmErrorView;

    open spec fn view(&self) -> HsmErrorView {
        match *self {
            HsmError::Register { mount, errno } => HsmErrorView::Register { mount: mount@, errno },
            HsmError::Recv(e) => HsmErrorView::Recv(e),
            HsmError::Begin(e) => HsmErrorView::Begin(e),
            HsmError::End(e) => HsmErrorView::End(e),
            HsmError::Progress(e) => HsmErrorView::Progress(e),
            HsmError::MalformedActionList { reason } => HsmErrorView::MalformedActionList {
                reason: reason@,
            },
            HsmError::UnknownActionKind(v) => HsmErrorView::UnknownActionKind(v),
            HsmError::UnknownCookie(c) => HsmErrorView::UnknownCookie(c),
            HsmError::EmptyArchiveList => HsmErrorView::EmptyArchiveList,
        }
    }
}

impl HsmErrorView {
    /// Text of the error.
    pub open spec fn message(self) -> Seq<char> {
        match self {
            HsmErrorView::Register { mount, errno } => "copytool registration on "@ + mount
                + " failed: errno "@ + text::dec_int(errno as int),
            HsmErrorView::Recv(e) => "copytool recv failed: errno "@ + text::dec_int(e as int),
            HsmErrorView::Begin(e) => "hsm_action_begin failed: errno "@ + text::dec_int(e as int),
            HsmErrorView::End(e) => "hsm_action_end failed: errno "@ + text::dec_int(e as int),
            HsmErrorView::Progress(e) => "hsm_action_progress failed: errno "@ + text::dec_int(
                e as int,
            ),
            HsmErrorView::MalformedActionList { reason } => "malformed hsm_action_list: "@
                + reason,
            HsmErrorView::UnknownActionKind(v) => "unknown wire action kind "@ + text::dec(
                v as nat,
            ),
            HsmErrorView::UnknownCookie(c) => "no in-flight action for cookie "@ + text::hex0x(
                c as nat,
            ),
            HsmErrorView::EmptyArchiveList => "register requires at least one archive id"@,
        }
    }
}

/// A fixed text with an errno behind it.
fn with_errno(what: &str, errno: i32) -> (r: String)
    ensures
        r@ == what@ + text::dec_int(errno as int),
{
    let mut out = what.to_owned();
    text::push_dec_int(&mut out, errno as i64);
    out
}

impl HsmError {
    /// Human-readable description.
    pub fn to_string(&self) -> (r: String)
        ensures
            r@ == self@.message(),
    {
        match self {
            HsmError::Register { mount, errno } => {
                let mut out = "copytool registration on ".to_owned();
                out.append(mount.as_str());
                out.append(" failed: errno ");
                text::push_dec_int(&mut out, *errno as i64);
                out
            },
            HsmError::Recv(e) => with_errno("copytool recv failed: errno ", *e),
            HsmError::Begin(e) => with_errno("hsm_action_begin failed: errno ", *e),
            HsmError::End(e) => with_errno("hsm_action_end failed: errno ", *e),
            HsmError::Progress(e) => with_errno("hsm_action_progress failed: errno ", *e),
            HsmError::MalformedActionList { reason } => {
                let mut out = "malformed hsm_action_list: ".to_owned();
                out.append(reason.as_str());
                out
            },
            HsmError::UnknownActionKind(v) => {
                let mut out = "unknown wire action kind ".to_owned();
                text::push_dec(&mut out, *v as u128);
                out
            },
            HsmError::UnknownCookie(c) => {
                let mut out = "no in-flight action for cookie ".to_owned();
                text::push_hex0x(&mut out, *c);
                out
            },
            HsmError::EmptyArchiveList => "register requires at least one archive id".to_owned(),
        }
    }
}

impl From<ConvError> for HsmError {
    fn from(e: ConvError) -> (r: HsmError) {
        match e {
            ConvError::UnknownCopytoolAction(v) => HsmError::UnknownActionKind(v),
        }
    }
}

impl vstd::std_specs::convert::FromSpecImpl<ConvError> for HsmError {
    open spec fn obeys_from_spec() -> bool {
        true
    }

    open spec fn from_spec(e: ConvError) -> HsmError {
        match e {
            ConvError::UnknownCopytoolAction(v) => HsmError::UnknownActionKind(v),
        }
    }
}

} // verus!
