//! HSM actions: the unit of work flowing from the Lustre coordinator to a
//! copytool, and the state machine the daemon mirrors locally.

use crate::model::backend::ArchiveId;
use crate::model::fid::Fid;
use crate::model::payload;
use crate::model::time::Timestamp;
use crate::text;
use bytes::Bytes;
use vstd::prelude::*;

verus! {

/// HSM action kind.
#[derive(Clone, Copy, Debug, PartialEq, Eq, Structural, Hash)]
pub enum ActionKind {
    /// File to archive backend.
    Archive,
    /// Archive backend to file.
    Restore,
    /// Delete the archive payload.
    Remove,
    /// Abort an in-flight action (matched by cookie).
    Cancel,
}

/// Cookie issued by the kernel coordinator to identify one in-flight action.
#[derive(Clone, Copy, Debug, PartialEq, Eq, Structural, PartialOrd, Ord, Hash)]
pub struct Cookie(pub u64);

impl Cookie {
    /// Wrap a raw `u64`.
    pub fn new(v: u64) -> (r: Cookie)
        ensures
            r == Cookie(v),
    {
        Cookie(v)
    }

    /// Unwrap to the raw `u64`.
    pub fn get(self) -> (r: u64)
        ensures
            r == self.0,
    {
        self.0
    }

    /// `0x`-prefixed hexadecimal.
    pub fn to_string(&self) -> (r: String)
        ensures
            r@ == text::hex0x(self.0 as nat),
    {
        let mut out = String::new();
        text::push_hex0x(&mut out, self.0);
        proof {
            assert(out@ =~= text::hex0x(self.0 as nat));
        }
        out
    }
}

/// Connected agent identifier.
#[derive(Debug, PartialEq, Eq, Hash)]
pub struct AgentId(pub String);

impl View for AgentId {
    type V = Seq<char>;

    open spec fn view(&self) -> Seq<char> {
        self.0@
    }
}

impl Clone for AgentId {
    fn clone(&self) -> (r: AgentId)
        ensures
            r == *self,
    {
        AgentId(self.0.clone())
    }
}

impl AgentId {
    /// Wrap a string id.
    pub fn new(id: &str) -> (r: AgentId)
        ensures
            r@ == id@,
    {
        AgentId(id.to_owned())
    }

    /// Borrow the string id.
    pub fn as_str(&self) -> (r: &str)
        ensures
            r@ == self@,
    {
        self.0.as_str()
    }

    /// The id itself.
    pub fn to_string(&self) -> (r: String)
        ensures
            r@ == self@,
    {
        self.0.clone()
    }

    /// `true` if both ids are the same text.
    pub fn same_as(&self, other: &AgentId) -> (r: bool)
        ensures
            r == (self@ == other@),
    {
        self.0 == other.0
    }
}

/// Byte range an action covers.
#[derive(Clone, Copy, Debug, PartialEq, Eq, Structural)]
pub struct Extent {
    /// Start offset (bytes).
    pub offset: u64,
    /// Length (bytes), or [`Extent::WHOLE_LENGTH`].
    pub length: u64,
}

impl Extent {
    /// `length` meaning "rest of the file".
    pub const WHOLE_LENGTH: u64 = 0xffff_ffff_ffff_ffff;

    /// Model of the whole-file extent.
    pub open spec fn spec_whole() -> Extent {
        Extent { offset: 0, length: Extent::WHOLE_LENGTH }
    }

    /// Whole-file extent starting at byte 0.
    #[verifier::when_used_as_spec(spec_whole)]
    pub fn whole() -> (r: Extent)
        ensures
            r == Extent::spec_whole(),
    {
        Extent { offset: 0, length: Extent::WHOLE_LENGTH }
    }

    /// Concrete extent.
    pub fn new(offset: u64, length: u64) -> (r: Extent)
        ensures
            r == (Extent { offset, length }),
    {
        Extent { offset, length }
    }

    /// `true` if this represents the entire file.
    pub fn is_whole_file(&self) -> (r: bool)
        ensures
            r == (*self == Extent::spec_whole()),
    {
        self.offset == 0 && self.length == Extent::WHOLE_LENGTH
    }
}

/// One unit of HSM work as scheduled by the daemon and executed by a mover.
#[derive(Debug, PartialEq, Eq)]
pub struct Action {
    /// Kernel-issued action cookie. Unique per in-flight action.
    pub cookie: Cookie,
    /// FID identifying the target file in the namespace.
    pub fid: Fid,
    /// Data FID, used to open released files. Often equal to `fid`.
    pub dfid: Fid,
    /// Which archive tier this action targets.
    pub archive_id: ArchiveId,
    /// What to do.
    pub kind: ActionKind,
    /// Byte range to operate on.
    pub extent: Extent,
    /// Group lock id (0 means none).
    pub gid: u64,
    /// Opaque per-action hint from the user.
    pub data: Bytes,
}

/// Model of [`Action`].
#[verifier::ext_equal]
pub struct ActionView {
    pub cookie: Cookie,
    pub fid: Fid,
    pub dfid: Fid,
    pub archive_id: ArchiveId,
    pub kind: ActionKind,
    pub extent: Extent,
    pub gid: u64,
    pub data: Seq<u8>,
}

impl View for Action {
    type V = ActionView;

    open spec fn view(&self) -> ActionView {
        ActionView {
            cookie: self.cookie,
            fid: self.fid,
            dfid: self.dfid,
            archive_id: self.archive_id,
            kind: self.kind,
            extent: self.extent,
            gid: self.gid,
            data: payload::bytes_of(self.data),
        }
    }
}

impl Clone for Action {
    fn clone(&self) -> (r: Action)
        ensures
            r@ == self@,
    {
        Action {
            cookie: self.cookie,
            fid: self.fid,
            dfid: self.dfid,
            archive_id: self.archive_id,
            kind: self.kind,
            extent: self.extent,
            gid: self.gid,
            data: self.data.clone(),
        }
    }
}

/// Where an action stands, mirroring the coordinator's request status.
#[derive(Debug, PartialEq, Eq)]
pub enum ArState {
    /// Queued, awaiting agent pickup.
    Waiting,
    /// An agent is running the action.
    Started {
        /// Which agent is running this action.
        agent: AgentId,
        /// When `Started` was entered (millis since UNIX epoch).
        since_unix_ms: u64,
    },
    /// Finished successfully.
    Succeed {
        /// Return code (typically 0).
        rc: i32,
    },
    /// Finished with an error.
    Failed {
        /// Error code (positive errno).
        rc: i32,
    },
    /// Cancellation propagated to the coordinator.
    Canceled,
}

/// Model of [`ArState`].
#[verifier::ext_equal]
pub enum ArStateView {
    Waiting,
    Started { agent: Seq<char>, since_unix_ms: u64 },
    Succeed { rc: i32 },
    Failed { rc: i32 },
    Canceled,
}

impl ArStateView {
    /// No transition leaves the state.
    pub open spec fn terminal(self) -> bool {
        self is Succeed || self is Failed || self is Canceled
    }

    /// What `{:?}` writes for the state.
    pub open spec fn debug(self) -> Seq<char> {
        match self {
            ArStateView::Waiting => "Waiting"@,
            ArStateView::Started { agent, since_unix_ms } => "Started { agent: AgentId("@
                + text::debug_text(agent) + "), since_unix_ms: "@ + text::dec(since_unix_ms as nat)
                + " }"@,
            ArStateView::Succeed { rc } => "Succeed { rc: "@ + text::dec_int(rc as int) + " }"@,
            ArStateView::Failed { rc } => "Failed { rc: "@ + text::dec_int(rc as int) + " }"@,
            ArStateView::Canceled => "Canceled"@,
        }
    }
}

impl View for ArState {
    type V = ArStateView;

    open spec fn view(&self) -> ArStateView {
        match *self {
            ArState::Waiting => ArStateView::Waiting,
            ArState::Started { agent, since_unix_ms } => ArStateView::Started {
                agent: agent@,
                since_unix_ms,
            },
            ArState::Succeed { rc } => ArStateView::Succeed { rc },
            ArState::Failed { rc } => ArStateView::Failed { rc },
            ArState::Canceled => ArStateView::Canceled,
        }
    }
}

impl Clone for ArState {
    fn clone(&self) -> (r: ArState)
        ensures
            r == *self,
    {
        match self {
            ArState::Waiting => ArState::Waiting,
            ArState::Started { agent, since_unix_ms } => ArState::Started {
                agent: agent.clone(),
                since_unix_ms: *since_unix_ms,
            },
            ArState::Succeed { rc } => ArState::Succeed { rc: *rc },
            ArState::Failed { rc } => ArState::Failed { rc: *rc },
            ArState::Canceled => ArState::Canceled,
        }
    }
}

impl ArState {
    /// `true` if no further state transitions are expected.
    pub fn is_terminal(&self) -> (r: bool)
        ensures
            r == self@.terminal(),
    {
        match self {
            ArState::Succeed { .. } => true,
            ArState::Failed { .. } => true,
            ArState::Canceled => true,
            _ => false,
        }
    }

    /// Structure of the state as text, for messages.
    pub fn debug(&self) -> (r: String)
        ensures
            r@ == self@.debug(),
    {
        let mut out = String::new();
        match self {
            ArState::Waiting => {
                out.append("Waiting");
            },
            ArState::Started { agent, since_unix_ms } => {
                out.append("Started { agent: AgentId(");
                out.append(text::debug_string(agent.as_str()).as_str());
                out.append("), since_unix_ms: ");
                text::push_dec(&mut out, *since_unix_ms as u128);
                out.append(" }");
            },
            ArState::Succeed { rc } => {
                out.append("Succeed { rc: ");
                text::push_dec_int(&mut out, *rc as i64);
                out.append(" }");
            },
            ArState::Failed { rc } => {
                out.append("Failed { rc: ");
                text::push_dec_int(&mut out, *rc as i64);
                out.append(" }");
            },
            ArState::Canceled => {
                out.append("Canceled");
            },
        }
        proof {
            assert(out@ =~= self@.debug());
        }
        out
    }
}

/// One row of the action store.
#[derive(Debug, PartialEq, Eq)]
pub struct ActionRecord {
    /// The action being tracked.
    pub action: Action,
    /// Current state.
    pub state: ArState,
    /// Furthest extent processed.
    pub progress: Extent,
    /// When the record was first persisted.
    pub created_at: Timestamp,
    /// When the state was last updated.
    pub updated_at: Timestamp,
}

/// Model of [`ActionRecord`].
#[verifier::ext_equal]
pub struct ActionRecordView {
    pub action: ActionView,
    pub state: ArStateView,
    pub progress: Extent,
    pub created_at: Timestamp,
    pub updated_at: Timestamp,
}

impl View for ActionRecord {
    type V = ActionRecordView;

    open spec fn view(&self) -> ActionRecordView {
        ActionRecordView {
            action: self.action@,
            state: self.state@,
            progress: self.progress,
            created_at: self.created_at,
            updated_at: self.updated_at,
        }
    }
}

impl Clone for ActionRecord {
    fn clone(&self) -> (r: ActionRecord)
        ensures
            r@ == self@,
    {
        ActionRecord {
            action: self.action.clone(),
            state: self.state.clone(),
            progress: self.progress,
            created_at: self.created_at,
            updated_at: self.updated_at,
        }
    }
}

impl ActionRecord {
    /// A fresh record in `Waiting` state, progress at offset 0.
    pub fn new(action: Action, now: Timestamp) -> (r: ActionRecord)
        ensures
            r@ == (ActionRecordView {
                action: action@,
                state: ArStateView::Waiting,
                progress: Extent { offset: 0, length: 0 },
                created_at: now,
                updated_at: now,
            }),
    {
        ActionRecord {
            action,
            state: ArState::Waiting,
            progress: Extent { offset: 0, length: 0 },
            created_at: now,
            updated_at: now,
        }
    }
}

} // verus!
