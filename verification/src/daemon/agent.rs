//! What the daemon hands to an agent, and what an agent reports back.

use crate::model::action::ActionView;
use crate::model::backend;
use crate::model::backend::BackendObjectView;
use crate::model::{Action, BackendObject, Cookie};
use crate::sdk::error::MoverError;
use vstd::prelude::*;

verus! {

/// The optional text of an optional string.
pub open spec fn text_opt(s: Option<String>) -> Option<Seq<char>> {
    match s {
        Some(t) => Some(t@),
        None => None,
    }
}

/// One unit of work for an agent, with the paths already resolved.
#[derive(Debug, PartialEq, Eq)]
pub struct DispatchedAction {
    /// The action to perform.
    pub action: Action,
    /// Path to read from.
    pub primary_path: String,
    /// Path to write to on `Restore`.
    pub write_path: Option<String>,
    /// The archived object, on `Restore` and `Remove`.
    pub existing: Option<BackendObject>,
    /// Path of the file below the mount root, on `Archive`, where it is known.
    pub lustre_path: Option<String>,
}

/// Model of [`DispatchedAction`].
#[verifier::ext_equal]
pub struct DispatchedView {
    pub action: ActionView,
    pub primary_path: Seq<char>,
    pub write_path: Option<Seq<char>>,
    pub existing: Option<BackendObjectView>,
    pub lustre_path: Option<Seq<char>>,
}

impl View for DispatchedAction {
    type V = DispatchedView;

    open spec fn view(&self) -> DispatchedView {
        DispatchedView {
            action: self.action@,
            primary_path: self.primary_path@,
            write_path: text_opt(self.write_path),
            existing: backend::object_opt_view(self.existing),
            lustre_path: text_opt(self.lustre_path),
        }
    }
}

impl Clone for DispatchedAction {
    fn clone(&self) -> (r: DispatchedAction)
        ensures
            r@ == self@,
    {
        DispatchedAction {
            action: self.action.clone(),
            primary_path: self.primary_path.clone(),
            write_path: match &self.write_path {
                Some(p) => Some(p.clone()),
                None => None,
            },
            existing: match &self.existing {
                Some(o) => Some(o.clone()),
                None => None,
            },
            lustre_path: match &self.lustre_path {
                Some(p) => Some(p.clone()),
                None => None,
            },
        }
    }
}

/// An agent's report on one action.
#[derive(Debug, PartialEq, Eq)]
pub enum ActionStatus {
    /// Still running.
    Progress {
        /// The action.
        cookie: Cookie,
        /// Bytes transferred so far.
        bytes_advanced: u64,
    },
    /// Finished successfully.
    Completed {
        /// The action.
        cookie: Cookie,
        /// Bytes moved in all.
        total_bytes: u64,
        /// The object that an `Archive` made.
        result: Option<BackendObject>,
    },
    /// Failed or cancelled.
    Failed {
        /// The action.
        cookie: Cookie,
        /// Positive errno.
        errno: i32,
        /// Why, for the log.
        reason: String,
    },
}

/// Model of [`ActionStatus`].
#[verifier::ext_equal]
pub enum ActionStatusView {
    Progress { cookie: Cookie, bytes_advanced: u64 },
    Completed { cookie: Cookie, total_bytes: u64, result: Option<BackendObjectView> },
    Failed { cookie: Cookie, errno: i32, reason: Seq<char> },
}

impl View for ActionStatus {
    type V = ActionStatusView;

    open spec fn view(&self) -> ActionStatusView {
        match *self {
            ActionStatus::Progress { cookie, bytes_advanced } => ActionStatusView::Progress {
                cookie,
                bytes_advanced,
            },
            ActionStatus::Completed { cookie, total_bytes, result } => ActionStatusView::Completed {
                cookie,
                total_bytes,
                result: backend::object_opt_view(result),
            },
            ActionStatus::Failed { cookie, errno, reason } => ActionStatusView::Failed {
                cookie,
                errno,
                reason: reason@,
            },
        }
    }
}

impl ActionStatusView {
    /// The action the report is about.
    pub open spec fn cookie(self) -> Cookie {
        match self {
            ActionStatusView::Progress { cookie, .. } => cookie,
            ActionStatusView::Completed { cookie, .. } => cookie,
            ActionStatusView::Failed { cookie, .. } => cookie,
        }
    }

    /// The report ends the action.
    pub open spec fn terminal(self) -> bool {
        self is Completed || self is Failed
    }
}

impl ActionStatus {
    /// The action the report is about.
    pub fn cookie(&self) -> (r: Cookie)
        ensures
            r == self@.cookie(),
    {
        match self {
            ActionStatus::Progress { cookie, .. } => *cookie,
            ActionStatus::Completed { cookie, .. } => *cookie,
            ActionStatus::Failed { cookie, .. } => *cookie,
        }
    }

    /// `true` if the report ends the action.
    pub fn is_terminal(&self) -> (r: bool)
        ensures
            r == self@.terminal(),
    {
        match self {
            ActionStatus::Progress { .. } => false,
            ActionStatus::Completed { .. } => true,
            ActionStatus::Failed { .. } => true,
        }
    }
}

/// The report of a mover's failure.
pub fn failed_from_error(cookie: Cookie, e: &MoverError) -> (r: ActionStatus)
    ensures
        r@ == (ActionStatusView::Failed { cookie, errno: e@.errno(), reason: e@.message() }),
{
    ActionStatus::Failed { cookie, errno: e.errno(), reason: e.to_string() }
}

} // verus!
