//! How records are laid out in the columns of a database table.
//!
//! Unsigned 64-bit values keep their bit pattern in signed columns. The state is
//! a name with nullable helper columns.

use crate::model::action::{ActionRecordView, ActionView, ArStateView};
use crate::model::payload;
use crate::model::{
    Action, ActionKind, ActionRecord, AgentId, ArState, ArchiveId, Cookie, Extent, Fid, Timestamp,
};
use crate::store::action_store;
use crate::store::error::{StoreError, StoreErrorView, StoreResult};
use crate::text;
use bytes::Bytes;
use vstd::prelude::*;

verus! {

// ---------------------------------------------------------------------------
// Numbers
// ---------------------------------------------------------------------------

/// The signed number with the bit pattern of `x`.
pub open spec fn signed(x: u64) -> i64 {
    if x <= i64::MAX {
        x as i64
    } else {
        (x - 0x1_0000_0000_0000_0000) as i64
    }
}

/// The unsigned number with the bit pattern of `v`.
pub open spec fn unsigned(v: i64) -> u64 {
    if v >= 0 {
        v as u64
    } else {
        (v + 0x1_0000_0000_0000_0000) as u64
    }
}

/// The low 32 bits of `v`.
pub open spec fn low32(v: i64) -> u32 {
    ((v as int) % 0x1_0000_0000) as u32
}

/// Reinterpret as signed.
pub fn to_signed(x: u64) -> (r: i64)
    ensures
        r == signed(x),
{
    if x <= 0x7fff_ffff_ffff_ffff {
        x as i64
    } else {
        -((0xffff_ffff_ffff_ffff - x) as i64) - 1
    }
}

/// Reinterpret as unsigned.
pub fn to_unsigned(v: i64) -> (r: u64)
    ensures
        r == unsigned(v),
{
    if v >= 0 {
        v as u64
    } else {
        0xffff_ffff_ffff_ffff - ((-(v + 1)) as u64)
    }
}

/// Keep the low 32 bits.
pub fn to_low32(v: i64) -> (r: u32)
    ensures
        r == low32(v),
{
    let u: u64 = to_unsigned(v);
    (u % 0x1_0000_0000) as u32
}

/// Writing an unsigned number and reading it back gives the number.
pub proof fn lemma_signed_round_trip(x: u64)
    ensures
        unsigned(signed(x)) == x,
{
}

/// How signed columns compare as the unsigned numbers they hold: numbers with the
/// high bit are the larger ones.
pub proof fn lemma_unsigned_order(a: u64, b: u64)
    ensures
        a <= b <==> (signed(a) >= 0 && signed(b) < 0) || ((signed(a) < 0) == (signed(b) < 0)
            && signed(a) <= signed(b)),
{
}

/// A number of 32 bits is read back from its column.
pub proof fn lemma_low32_round_trip(x: u32)
    ensures
        low32(x as i64) == x,
{
}

/// Nanoseconds since the epoch as a column value: zero before the epoch, and
/// the largest value when they do not fit.
pub open spec fn nanos_column(t: Timestamp) -> i64 {
    if t.nanos < 0 {
        0
    } else if t.nanos > i64::MAX {
        i64::MAX
    } else {
        t.nanos as i64
    }
}

/// The time a column value stands for; a negative value stands for the epoch.
pub open spec fn column_time(v: i64) -> Timestamp {
    Timestamp {
        nanos: if v < 0 {
            0
        } else {
            v as i128
        },
    }
}

/// Column value of a time.
pub fn to_nanos(t: Timestamp) -> (r: i64)
    ensures
        r == nanos_column(t),
{
    if t.nanos < 0 {
        0
    } else if t.nanos > 0x7fff_ffff_ffff_ffff {
        0x7fff_ffff_ffff_ffff
    } else {
        t.nanos as i64
    }
}

/// Time of a column value.
pub fn from_nanos(v: i64) -> (r: Timestamp)
    ensures
        r == column_time(v),
{
    if v < 0 {
        Timestamp { nanos: 0 }
    } else {
        Timestamp { nanos: v as i128 }
    }
}

/// Times from the epoch on, up to what a column holds, survive the round trip.
pub proof fn lemma_time_round_trip(t: Timestamp)
    requires
        0 <= t.nanos <= i64::MAX,
    ensures
        column_time(nanos_column(t)) == t,
{
}

// ---------------------------------------------------------------------------
// Kinds
// ---------------------------------------------------------------------------

/// Stored name of a kind.
pub open spec fn kind_column(k: ActionKind) -> Seq<char> {
    match k {
        ActionKind::Archive => "Archive"@,
        ActionKind::Restore => "Restore"@,
        ActionKind::Remove => "Remove"@,
        ActionKind::Cancel => "Cancel"@,
    }
}

/// The kind of a stored name, or the text of the error.
pub open spec fn column_kind(s: Seq<char>) -> Result<ActionKind, Seq<char>> {
    if s == "Archive"@ {
        Ok(ActionKind::Archive)
    } else if s == "Restore"@ {
        Ok(ActionKind::Restore)
    } else if s == "Remove"@ {
        Ok(ActionKind::Remove)
    } else if s == "Cancel"@ {
        Ok(ActionKind::Cancel)
    } else {
        Err("unknown ActionKind in DB: "@ + text::debug_text(s))
    }
}

/// `r` is a backend failure with that text.
pub open spec fn fails_with<T>(r: StoreResult<T>, message: Seq<char>) -> bool {
    r matches Err(e) && e@ == StoreErrorView::Backend(message)
}

/// A backend failure made of a fixed text and a quoted value.
fn backend_quoting(what: &str, value: &str) -> (e: StoreError)
    ensures
        e@ == StoreErrorView::Backend(what@ + text::debug_text(value@)),
{
    let mut out = what.to_owned();
    out.append(text::debug_string(value).as_str());
    StoreError::Backend(out)
}

/// Stored name of a kind.
pub fn encode_kind(k: ActionKind) -> (r: &'static str)
    ensures
        r@ == kind_column(k),
{
    match k {
        ActionKind::Archive => "Archive",
        ActionKind::Restore => "Restore",
        ActionKind::Remove => "Remove",
        ActionKind::Cancel => "Cancel",
    }
}

/// Kind of a stored name.
pub fn decode_kind(s: &str) -> (r: StoreResult<ActionKind>)
    ensures
        match column_kind(s@) {
            Ok(k) => r == Ok::<ActionKind, StoreError>(k),
            Err(m) => fails_with(r, m),
        },
{
    if text::same(s, "Archive") {
        Ok(ActionKind::Archive)
    } else if text::same(s, "Restore") {
        Ok(ActionKind::Restore)
    } else if text::same(s, "Remove") {
        Ok(ActionKind::Remove)
    } else if text::same(s, "Cancel") {
        Ok(ActionKind::Cancel)
    } else {
        Err(backend_quoting("unknown ActionKind in DB: ", s))
    }
}

/// Reading the stored name of a kind gives the kind.
pub proof fn lemma_kind_round_trip(k: ActionKind)
    ensures
        column_kind(kind_column(k)) == Ok::<ActionKind, Seq<char>>(k),
{
    reveal_strlit("Archive");
    reveal_strlit("Restore");
    reveal_strlit("Remove");
    reveal_strlit("Cancel");
    assert("Archive"@[0] == 'A');
    assert("Restore"@[0] == 'R');
    assert("Remove"@[0] == 'R');
    assert("Cancel"@[0] == 'C');
    assert("Restore"@.len() == 7);
    assert("Remove"@.len() == 6);
}

// ---------------------------------------------------------------------------
// States
// ---------------------------------------------------------------------------

/// The columns that hold a state.
#[derive(Debug, PartialEq, Eq)]
pub struct StateColumns {
    /// Name of the state.
    pub state: String,
    /// Agent of a started action.
    pub agent_id: Option<String>,
    /// Start time of a started action, milliseconds since the epoch.
    pub since_unix_ms: Option<i64>,
    /// Return code of a finished action.
    pub rc: Option<i32>,
}

/// Model of [`StateColumns`].
#[verifier::ext_equal]
pub struct StateColumnsView {
    pub state: Seq<char>,
    pub agent_id: Option<Seq<char>>,
    pub since_unix_ms: Option<i64>,
    pub rc: Option<i32>,
}

impl View for StateColumns {
    type V = StateColumnsView;

    open spec fn view(&self) -> StateColumnsView {
        StateColumnsView {
            state: self.state@,
            agent_id: action_store::opt_text(self.agent_id),
            since_unix_ms: self.since_unix_ms,
            rc: self.rc,
        }
    }
}

/// Stored name of a state.
pub open spec fn state_column(s: ArStateView) -> Seq<char> {
    match s {
        ArStateView::Waiting => "Waiting"@,
        ArStateView::Started { .. } => "Started"@,
        ArStateView::Succeed { .. } => "Succeed"@,
        ArStateView::Failed { .. } => "Failed"@,
        ArStateView::Canceled => "Canceled"@,
    }
}

/// The columns of a state. A start time beyond the signed range is stored as the
/// largest value.
pub open spec fn state_columns(s: ArStateView) -> StateColumnsView {
    StateColumnsView {
        state: state_column(s),
        agent_id: match s {
            ArStateView::Started { agent, .. } => Some(agent),
            _ => None,
        },
        since_unix_ms: match s {
            ArStateView::Started { since_unix_ms, .. } => Some(
                if since_unix_ms > i64::MAX {
                    i64::MAX
                } else {
                    since_unix_ms as i64
                },
            ),
            _ => None,
        },
        rc: match s {
            ArStateView::Succeed { rc } => Some(rc),
            ArStateView::Failed { rc } => Some(rc),
            _ => None,
        },
    }
}

/// The state that columns hold, or the text of the error.
pub open spec fn columns_state(c: StateColumnsView) -> Result<ArStateView, Seq<char>> {
    if c.state == "Waiting"@ {
        Ok(ArStateView::Waiting)
    } else if c.state == "Started"@ {
        match (c.agent_id, c.since_unix_ms) {
            (None, _) => Err("Started row has NULL agent_id"@),
            (_, None) => Err("Started row has NULL since_unix_ms"@),
            (Some(agent), Some(ms)) => Ok(
                ArStateView::Started { agent, since_unix_ms: unsigned(ms) },
            ),
        }
    } else if c.state == "Succeed"@ {
        match c.rc {
            None => Err("Succeed row has NULL rc"@),
            Some(rc) => Ok(ArStateView::Succeed { rc }),
        }
    } else if c.state == "Failed"@ {
        match c.rc {
            None => Err("Failed row has NULL rc"@),
            Some(rc) => Ok(ArStateView::Failed { rc }),
        }
    } else if c.state == "Canceled"@ {
        Ok(ArStateView::Canceled)
    } else {
        Err("unknown ArState discriminant in DB: "@ + text::debug_text(c.state))
    }
}

/// Columns of a state.
pub fn encode_state(s: &ArState) -> (r: StateColumns)
    ensures
        r@ == state_columns(s@),
{
    match s {
        ArState::Waiting => StateColumns {
            state: "Waiting".to_owned(),
            agent_id: None,
            since_unix_ms: None,
            rc: None,
        },
        ArState::Started { agent, since_unix_ms } => {
            let ms: i64 = if *since_unix_ms > 0x7fff_ffff_ffff_ffff {
                0x7fff_ffff_ffff_ffff
            } else {
                *since_unix_ms as i64
            };
            StateColumns {
                state: "Started".to_owned(),
                agent_id: Some(agent.to_string()),
                since_unix_ms: Some(ms),
                rc: None,
            }
        },
        ArState::Succeed { rc } => StateColumns {
            state: "Succeed".to_owned(),
            agent_id: None,
            since_unix_ms: None,
            rc: Some(*rc),
        },
        ArState::Failed { rc } => StateColumns {
            state: "Failed".to_owned(),
            agent_id: None,
            since_unix_ms: None,
            rc: Some(*rc),
        },
        ArState::Canceled => StateColumns {
            state: "Canceled".to_owned(),
            agent_id: None,
            since_unix_ms: None,
            rc: None,
        },
    }
}

/// State of columns.
pub fn decode_state(c: &StateColumns) -> (r: StoreResult<ArState>)
    ensures
        match columns_state(c@) {
            Ok(s) => r matches Ok(x) && x@ == s,
            Err(m) => fails_with(r, m),
        },
{
    let name = c.state.as_str();
    if text::same(name, "Waiting") {
        Ok(ArState::Waiting)
    } else if text::same(name, "Started") {
        match (&c.agent_id, c.since_unix_ms) {
            (None, _) => Err(StoreError::Backend("Started row has NULL agent_id".to_owned())),
            (_, None) => Err(StoreError::Backend("Started row has NULL since_unix_ms".to_owned())),
            (Some(agent), Some(ms)) => Ok(
                ArState::Started {
                    agent: AgentId::new(agent.as_str()),
                    since_unix_ms: to_unsigned(ms),
                },
            ),
        }
    } else if text::same(name, "Succeed") {
        match c.rc {
            None => Err(StoreError::Backend("Succeed row has NULL rc".to_owned())),
            Some(rc) => Ok(ArState::Succeed { rc }),
        }
    } else if text::same(name, "Failed") {
        match c.rc {
            None => Err(StoreError::Backend("Failed row has NULL rc".to_owned())),
            Some(rc) => Ok(ArState::Failed { rc }),
        }
    } else if text::same(name, "Canceled") {
        Ok(ArState::Canceled)
    } else {
        Err(backend_quoting("unknown ArState discriminant in DB: ", name))
    }
}

/// The stored state names differ from each other.
proof fn lemma_state_columns_distinct()
    ensures
        "Waiting"@ != "Started"@,
        "Waiting"@ != "Succeed"@,
        "Waiting"@ != "Failed"@,
        "Waiting"@ != "Canceled"@,
        "Started"@ != "Succeed"@,
        "Started"@ != "Failed"@,
        "Started"@ != "Canceled"@,
        "Succeed"@ != "Failed"@,
        "Succeed"@ != "Canceled"@,
        "Failed"@ != "Canceled"@,
{
    reveal_strlit("Waiting");
    reveal_strlit("Started");
    reveal_strlit("Succeed");
    reveal_strlit("Failed");
    reveal_strlit("Canceled");
    assert("Waiting"@[0] == 'W');
    assert("Started"@[0] == 'S' && "Started"@[1] == 't');
    assert("Succeed"@[0] == 'S' && "Succeed"@[1] == 'u');
    assert("Failed"@[0] == 'F');
    assert("Canceled"@[0] == 'C');
}

/// Reading the columns of a state gives the state, if its start time fits the
/// signed range.
pub proof fn lemma_state_round_trip(s: ArStateView)
    requires
        s matches ArStateView::Started { since_unix_ms, .. } ==> since_unix_ms <= i64::MAX,
    ensures
        columns_state(state_columns(s)) == Ok::<ArStateView, Seq<char>>(s),
{
    lemma_state_columns_distinct();
}

/// A stored name stands for a terminal state exactly if it is `Succeed`,
/// `Failed` or `Canceled`: the guard on updates is the guard on states.
pub proof fn lemma_terminal_guard(c: StateColumnsView)
    ensures
        columns_state(c) matches Ok(s) ==> (s.terminal() <==> c.state == "Succeed"@ || c.state
            == "Failed"@ || c.state == "Canceled"@),
{
    lemma_state_columns_distinct();
}

// ---------------------------------------------------------------------------
// Rows
// ---------------------------------------------------------------------------

/// One row of the actions table.
#[derive(Debug, PartialEq, Eq)]
pub struct ActionRow {
    pub cookie: i64,
    pub fid_seq: i64,
    pub fid_oid: i64,
    pub fid_ver: i64,
    pub dfid_seq: i64,
    pub dfid_oid: i64,
    pub dfid_ver: i64,
    pub archive_id: i64,
    pub kind: String,
    pub extent_off: i64,
    pub extent_len: i64,
    pub gid: i64,
    pub data: Vec<u8>,
    pub state: StateColumns,
    pub prog_off: i64,
    pub prog_len: i64,
    pub created_at: i64,
    pub updated_at: i64,
}

/// Model of [`ActionRow`].
#[verifier::ext_equal]
pub struct ActionRowView {
    pub cookie: i64,
    pub fid_seq: i64,
    pub fid_oid: i64,
    pub fid_ver: i64,
    pub dfid_seq: i64,
    pub dfid_oid: i64,
    pub dfid_ver: i64,
    pub archive_id: i64,
    pub kind: Seq<char>,
    pub extent_off: i64,
    pub extent_len: i64,
    pub gid: i64,
    pub data: Seq<u8>,
    pub state: StateColumnsView,
    pub prog_off: i64,
    pub prog_len: i64,
    pub created_at: i64,
    pub updated_at: i64,
}

impl View for ActionRow {
    type V = ActionRowView;

    open spec fn view(&self) -> ActionRowView {
        ActionRowView {
            cookie: self.cookie,
            fid_seq: self.fid_seq,
            fid_oid: self.fid_oid,
            fid_ver: self.fid_ver,
            dfid_seq: self.dfid_seq,
            dfid_oid: self.dfid_oid,
            dfid_ver: self.dfid_ver,
            archive_id: self.archive_id,
            kind: self.kind@,
            extent_off: self.extent_off,
            extent_len: self.extent_len,
            gid: self.gid,
            data: self.data@,
            state: self.state@,
            prog_off: self.prog_off,
            prog_len: self.prog_len,
            created_at: self.created_at,
            updated_at: self.updated_at,
        }
    }
}

/// The row of a record.
pub open spec fn record_row(r: ActionRecordView) -> ActionRowView {
    ActionRowView {
        cookie: signed(r.action.cookie.0),
        fid_seq: signed(r.action.fid.seq),
        fid_oid: r.action.fid.oid as i64,
        fid_ver: r.action.fid.ver as i64,
        dfid_seq: signed(r.action.dfid.seq),
        dfid_oid: r.action.dfid.oid as i64,
        dfid_ver: r.action.dfid.ver as i64,
        archive_id: r.action.archive_id.0 as i64,
        kind: kind_column(r.action.kind),
        extent_off: signed(r.action.extent.offset),
        extent_len: signed(r.action.extent.length),
        gid: signed(r.action.gid),
        data: r.action.data,
        state: state_columns(r.state),
        prog_off: signed(r.progress.offset),
        prog_len: signed(r.progress.length),
        created_at: nanos_column(r.created_at),
        updated_at: nanos_column(r.updated_at),
    }
}

/// The record of a row, or the text of the error. The kind is judged before the
/// state.
pub open spec fn row_record(w: ActionRowView) -> Result<ActionRecordView, Seq<char>> {
    match (column_kind(w.kind), columns_state(w.state)) {
        (Err(m), _) => Err(m),
        (_, Err(m)) => Err(m),
        (Ok(kind), Ok(state)) => Ok(
            ActionRecordView {
                action: ActionView {
                    cookie: Cookie(unsigned(w.cookie)),
                    fid: Fid {
                        seq: unsigned(w.fid_seq),
                        oid: low32(w.fid_oid),
                        ver: low32(w.fid_ver),
                    },
                    dfid: Fid {
                        seq: unsigned(w.dfid_seq),
                        oid: low32(w.dfid_oid),
                        ver: low32(w.dfid_ver),
                    },
                    archive_id: ArchiveId(low32(w.archive_id)),
                    kind,
                    extent: Extent {
                        offset: unsigned(w.extent_off),
                        length: unsigned(w.extent_len),
                    },
                    gid: unsigned(w.gid),
                    data: w.data,
                },
                state,
                progress: Extent { offset: unsigned(w.prog_off), length: unsigned(w.prog_len) },
                created_at: column_time(w.created_at),
                updated_at: column_time(w.updated_at),
            },
        ),
    }
}

/// Row of a record.
pub fn encode_record(rec: &ActionRecord) -> (r: ActionRow)
    ensures
        r@ == record_row(rec@),
{
    ActionRow {
        cookie: to_signed(rec.action.cookie.0),
        fid_seq: to_signed(rec.action.fid.seq),
        fid_oid: rec.action.fid.oid as i64,
        fid_ver: rec.action.fid.ver as i64,
        dfid_seq: to_signed(rec.action.dfid.seq),
        dfid_oid: rec.action.dfid.oid as i64,
        dfid_ver: rec.action.dfid.ver as i64,
        archive_id: rec.action.archive_id.0 as i64,
        kind: encode_kind(rec.action.kind).to_owned(),
        extent_off: to_signed(rec.action.extent.offset),
        extent_len: to_signed(rec.action.extent.length),
        gid: to_signed(rec.action.gid),
        data: payload::bytes_to_vec(&rec.action.data),
        state: encode_state(&rec.state),
        prog_off: to_signed(rec.progress.offset),
        prog_len: to_signed(rec.progress.length),
        created_at: to_nanos(rec.created_at),
        updated_at: to_nanos(rec.updated_at),
    }
}

/// Record of a row.
pub fn decode_record(w: &ActionRow) -> (r: StoreResult<ActionRecord>)
    ensures
        match row_record(w@) {
            Ok(rec) => r matches Ok(x) && x@ == rec,
            Err(m) => fails_with(r, m),
        },
{
    let kind = match decode_kind(w.kind.as_str()) {
        Ok(k) => k,
        Err(e) => {
            return Err(e);
        },
    };
    let state = match decode_state(&w.state) {
        Ok(s) => s,
        Err(e) => {
            return Err(e);
        },
    };
    let action = Action {
        cookie: Cookie(to_unsigned(w.cookie)),
        fid: Fid {
            seq: to_unsigned(w.fid_seq),
            oid: to_low32(w.fid_oid),
            ver: to_low32(w.fid_ver),
        },
        dfid: Fid {
            seq: to_unsigned(w.dfid_seq),
            oid: to_low32(w.dfid_oid),
            ver: to_low32(w.dfid_ver),
        },
        archive_id: ArchiveId(to_low32(w.archive_id)),
        kind,
        extent: Extent { offset: to_unsigned(w.extent_off), length: to_unsigned(w.extent_len) },
        gid: to_unsigned(w.gid),
        data: Bytes::copy_from_slice(w.data.as_slice()),
    };
    Ok(
        ActionRecord {
            action,
            state,
            progress: Extent { offset: to_unsigned(w.prog_off), length: to_unsigned(w.prog_len) },
            created_at: from_nanos(w.created_at),
            updated_at: from_nanos(w.updated_at),
        },
    )
}

/// What a row can hold without loss: times from the epoch on within the signed
/// range of nanoseconds, and a start time within the signed range.
pub open spec fn storable(r: ActionRecordView) -> bool {
    &&& 0 <= r.created_at.nanos <= i64::MAX
    &&& 0 <= r.updated_at.nanos <= i64::MAX
    &&& r.state matches ArStateView::Started { since_unix_ms, .. } ==> since_unix_ms <= i64::MAX
}

/// A record that is written to a row and read back is the same record.
pub proof fn lemma_row_round_trip(r: ActionRecordView)
    requires
        storable(r),
    ensures
        row_record(record_row(r)) == Ok::<ActionRecordView, Seq<char>>(r),
{
    lemma_kind_round_trip(r.action.kind);
    lemma_state_round_trip(r.state);
    lemma_low32_round_trip(r.action.fid.oid);
    lemma_low32_round_trip(r.action.fid.ver);
    lemma_low32_round_trip(r.action.dfid.oid);
    lemma_low32_round_trip(r.action.dfid.ver);
    lemma_low32_round_trip(r.action.archive_id.0);
    let back = row_record(record_row(r))->Ok_0;
    assert(back =~= r);
}

// ---------------------------------------------------------------------------
// Statements and their outcomes
// ---------------------------------------------------------------------------

/// How an `INSERT` ended.
#[derive(Debug, PartialEq, Eq)]
pub enum InsertAttempt {
    /// The row was written.
    Inserted,
    /// The cookie is already there.
    UniqueViolation,
    /// Anything else, with its text.
    Failed(String),
}

/// Result of an insert.
pub fn insert_outcome(cookie: Cookie, attempt: InsertAttempt) -> (r: StoreResult<()>)
    ensures
        match attempt {
            InsertAttempt::Inserted => r is Ok,
            InsertAttempt::UniqueViolation => r matches Err(e) && e@
                == StoreErrorView::DuplicateCookie(cookie),
            InsertAttempt::Failed(m) => fails_with(r, m@),
        },
{
    match attempt {
        InsertAttempt::Inserted => Ok(()),
        InsertAttempt::UniqueViolation => Err(StoreError::DuplicateCookie(cookie)),
        InsertAttempt::Failed(m) => Err(StoreError::Backend(m)),
    }
}

/// Result of a guarded state change: one row changed is success; otherwise the
/// row found under the cookie, if any, tells why not.
pub fn transition_outcome(cookie: Cookie, affected: u64, found: Option<StateColumns>) -> (r:
    StoreResult<()>)
    ensures
        if affected == 1 {
            r is Ok
        } else {
            match found {
                None => r matches Err(e) && e@ == StoreErrorView::UnknownCookie(cookie),
                Some(c) => match columns_state(c@) {
                    Ok(from) => r matches Err(e) && e@ == (StoreErrorView::TerminalTransition {
                        cookie,
                        from,
                    }),
                    Err(m) => fails_with(r, m),
                },
            }
        },
{
    if affected == 1 {
        return Ok(());
    }
    match found {
        None => Err(StoreError::UnknownCookie(cookie)),
        Some(c) => match decode_state(&c) {
            Ok(from) => Err(StoreError::TerminalTransition { cookie, from }),
            Err(e) => Err(e),
        },
    }
}

/// Result of a guarded progress update: one row changed is success; otherwise
/// the progress columns found under the cookie, if any, tell why not.
pub fn progress_outcome(cookie: Cookie, got: Extent, affected: u64, found: Option<(i64, i64)>) -> (r:
    StoreResult<()>)
    ensures
        if affected == 1 {
            r is Ok
        } else {
            match found {
                None => r matches Err(e) && e@ == StoreErrorView::UnknownCookie(cookie),
                Some(p) => r matches Err(e) && e@ == (StoreErrorView::ProgressRegression {
                    cookie,
                    have: Extent { offset: unsigned(p.0), length: unsigned(p.1) },
                    got,
                }),
            }
        },
{
    if affected == 1 {
        return Ok(());
    }
    match found {
        None => Err(StoreError::UnknownCookie(cookie)),
        Some((off, len)) => Err(
            StoreError::ProgressRegression {
                cookie,
                have: Extent { offset: to_unsigned(off), length: to_unsigned(len) },
                got,
            },
        ),
    }
}

/// The listing statement, with a condition for each filter that is in use.
pub open spec fn query_sql(state: bool, archive: bool) -> Seq<char> {
    "SELECT * FROM actions WHERE 1=1"@ + (if state {
        " AND state = ?"@
    } else {
        Seq::empty()
    }) + (if archive {
        " AND archive_id = ?"@
    } else {
        Seq::empty()
    }) + " LIMIT ?"@
}

/// Build the listing statement.
pub fn build_query_sql(state: bool, archive: bool) -> (r: String)
    ensures
        r@ == query_sql(state, archive),
{
    let mut sql = "SELECT * FROM actions WHERE 1=1".to_owned();
    if state {
        sql.append(" AND state = ?");
    }
    if archive {
        sql.append(" AND archive_id = ?");
    }
    sql.append(" LIMIT ?");
    proof {
        assert(sql@ =~= query_sql(state, archive));
    }
    sql
}

/// Stored name for a lowercase state name; any other text stands for itself.
pub open spec fn stored_state(name: Seq<char>) -> Seq<char> {
    if name == "waiting"@ {
        "Waiting"@
    } else if name == "started"@ {
        "Started"@
    } else if name == "succeed"@ {
        "Succeed"@
    } else if name == "failed"@ {
        "Failed"@
    } else if name == "canceled"@ {
        "Canceled"@
    } else {
        name
    }
}

/// Stored name for a lowercase state name.
pub fn stored_state_name(name: &str) -> (r: String)
    ensures
        r@ == stored_state(name@),
{
    if text::same(name, "waiting") {
        "Waiting".to_owned()
    } else if text::same(name, "started") {
        "Started".to_owned()
    } else if text::same(name, "succeed") {
        "Succeed".to_owned()
    } else if text::same(name, "failed") {
        "Failed".to_owned()
    } else if text::same(name, "canceled") {
        "Canceled".to_owned()
    } else {
        name.to_owned()
    }
}

/// Filtering rows by stored name is filtering states by name.
pub proof fn lemma_stored_state(s: ArStateView)
    ensures
        stored_state(action_store::state_name(s)) == state_column(s),
{
    action_store::lemma_state_names_distinct();
}

/// Sum of the counts of the groups whose name is `name`.
pub open spec fn count_of(groups: Seq<(String, i64)>, name: Seq<char>) -> int
    decreases groups.len(),
{
    if groups.len() == 0 {
        0
    } else {
        count_of(groups.drop_last(), name) + (if groups.last().0@ == name {
            unsigned(groups.last().1) as int
        } else {
            0
        })
    }
}

/// Sum of all counts.
pub open spec fn count_all(groups: Seq<(String, i64)>) -> int
    decreases groups.len(),
{
    if groups.len() == 0 {
        0
    } else {
        count_all(groups.drop_last()) + unsigned(groups.last().1)
    }
}

/// The parts are no more than the whole.
proof fn lemma_counts(groups: Seq<(String, i64)>, k: int)
    requires
        0 <= k <= groups.len(),
    ensures
        0 <= count_of(groups.take(k), "Waiting"@) <= count_all(groups.take(k)),
        0 <= count_of(groups.take(k), "Started"@) <= count_all(groups.take(k)),
        count_all(groups.take(k)) <= count_all(groups),
    decreases groups.len(), k,
{
    if k > 0 {
        lemma_counts(groups, k - 1);
        assert(groups.take(k).drop_last() =~= groups.take(k - 1));
    }
    lemma_count_prefix(groups, k);
}

/// A prefix counts no more.
proof fn lemma_count_prefix(groups: Seq<(String, i64)>, k: int)
    requires
        0 <= k <= groups.len(),
    ensures
        count_all(groups.take(k)) <= count_all(groups),
    decreases groups.len() - k,
{
    if k == groups.len() {
        assert(groups.take(k) =~= groups);
    } else {
        lemma_count_prefix(groups, k + 1);
        assert(groups.take(k + 1).drop_last() =~= groups.take(k));
    }
}

/// Waiting, started and total counts from counts per stored state name. The
/// total must fit.
pub fn sum_counts(groups: &Vec<(String, i64)>) -> (r: (u64, u64, u64))
    requires
        count_all(groups@) <= u64::MAX,
    ensures
        r.0 == count_of(groups@, "Waiting"@),
        r.1 == count_of(groups@, "Started"@),
        r.2 == count_all(groups@),
{
    let mut waiting: u64 = 0;
    let mut started: u64 = 0;
    let mut total: u64 = 0;
    let mut i: usize = 0;
    while i < groups.len()
        invariant
            i <= groups@.len(),
            count_all(groups@) <= u64::MAX,
            waiting == count_of(groups@.take(i as int), "Waiting"@),
            started == count_of(groups@.take(i as int), "Started"@),
            total == count_all(groups@.take(i as int)),
        decreases groups.len() - i,
    {
        proof {
            lemma_counts(groups@, i as int);
            lemma_counts(groups@, i + 1);
            assert(groups@.take(i + 1).drop_last() =~= groups@.take(i as int));
            assert(groups@.take(i + 1).last() == groups@[i as int]);
            lemma_state_columns_distinct();
        }
        let n: u64 = to_unsigned(groups[i].1);
        total = total + n;
        if text::same(groups[i].0.as_str(), "Waiting") {
            waiting = waiting + n;
        } else if text::same(groups[i].0.as_str(), "Started") {
            started = started + n;
        }
        i = i + 1;
    }
    proof {
        assert(groups@.take(i as int) =~= groups@);
    }
    (waiting, started, total)
}

} // verus!
