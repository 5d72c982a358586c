//! What can go wrong in the daemon.

use crate::llapi::error::{HsmError, HsmErrorView};
use crate::store::error::{StoreError, StoreErrorView};
use crate::text;
use vstd::prelude::*;

verus! {

/// Result alias for daemon operations.
pub type DaemonResult<T> = Result<T, DaemonError>;

/// What can go wrong in the daemon.
#[derive(Debug, PartialEq, Eq)]
pub enum DaemonError {
    /// The store refused or failed.
    Store(StoreError),
    /// The copytool refused or failed.
    Hsm(HsmError),
    /// An internal channel closed unexpectedly.
    ChannelClosed(&'static str),
    /// No agent serves that archive.
    NoCapableAgent(u32),
    /// The system refused an operation.
    Io(String),
}

/// Model of [`DaemonError`].
#[verifier::ext_equal]
pub enum DaemonErrorView {
    Store(StoreErrorView),
    Hsm(HsmErrorView),
    ChannelClosed(Seq<char>),
    NoCapableAgent(u32),
    Io(Seq<char>),
}

impl View for DaemonError {
    type V = DaemonErrorView;

    open spec fn view(&self) -> DaemonErrorView {
        match *self {
            DaemonError::Store(e) => DaemonErrorView::Store(e@),
            DaemonError::Hsm(e) => DaemonErrorView::Hsm(e@),
            DaemonError::ChannelClosed(s) => DaemonErrorView::ChannelClosed(s@),
            DaemonError::NoCapableAgent(a) => DaemonErrorView::NoCapableAgent(a),
            DaemonError::Io(s) => DaemonErrorView::Io(s@),
        }
    }
}

impl DaemonErrorView {
    /// Text of the error.
    pub open spec fn message(self) -> Seq<char> {
        match self {
            DaemonErrorView::Store(e) => "store error: "@ + e.message(),
            DaemonErrorView::Hsm(e) => "hsm error: "@ + e.message(),
            DaemonErrorView::ChannelClosed(s) => "channel closed: "@ + s,
            DaemonErrorView::NoCapableAgent(a) => "no agent registered for archive_id "@
                + text::dec(a as nat),
            DaemonErrorView::Io(s) => "io error: "@ + s,
        }
    }
}

impl DaemonError {
    /// Human-readable description.
    pub fn to_string(&self) -> (r: String)
        ensures
            r@ == self@.message(),
    {
        match self {
            DaemonError::Store(e) => {
                let mut out = "store error: ".to_owned();
                out.append(e.to_string().as_str());
                out
            },
            DaemonError::Hsm(e) => {
                let mut out = "hsm error: ".to_owned();
                out.append(e.to_string().as_str());
                out
            },
            DaemonError::ChannelClosed(s) => {
                let mut out = "channel closed: ".to_owned();
                out.append(s);
                out
            },
            DaemonError::NoCapableAgent(a) => {
                let mut out = "no agent registered for archive_id ".to_owned();
                text::push_dec(&mut out, *a as u128);
                out
            },
            DaemonError::Io(s) => {
                let mut out = "io error: ".to_owned();
                out.append(s.as_str());
                out
            },
        }
    }
}

impl From<StoreError> for DaemonError {
    fn from(e: StoreError) -> (r: DaemonError) {
        DaemonError::Store(e)
    }
}

impl vstd::std_specs::convert::FromSpecImpl<StoreError> for DaemonError {
    open spec fn obeys_from_spec() -> bool {
        true
    }

    open spec fn from_spec(e: StoreError) -> DaemonError {
        DaemonError::Store(e)
    }
}

impl From<HsmError> for DaemonError {
    fn from(e: HsmError) -> (r: DaemonError) {
        DaemonError::Hsm(e)
    }
}

impl vstd::std_specs::convert::FromSpecImpl<HsmError> for DaemonError {
    open spec fn obeys_from_spec() -> bool {
        true
    }

    open spec fn from_spec(e: HsmError) -> DaemonError {
        DaemonError::Hsm(e)
    }
}

} // verus!
