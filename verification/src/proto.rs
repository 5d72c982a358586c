//! The messages between daemon, plugins and the control tool, as plain records.

use crate::model::backend;
use crate::model::backend::BackendObjectView;
use crate::model::{ActionKind, BackendObject};
use vstd::prelude::*;

verus! {

/// Number of an action kind that was not set or is not known.
pub const KIND_UNSPECIFIED: i32 = 0;

/// Number of `Archive`.
pub const KIND_ARCHIVE: i32 = 1;

/// Number of `Restore`.
pub const KIND_RESTORE: i32 = 2;

/// Number of `Remove`.
pub const KIND_REMOVE: i32 = 3;

/// Number of `Cancel`.
pub const KIND_CANCEL: i32 = 4;

/// Number of a kind.
pub open spec fn kind_number(k: ActionKind) -> i32 {
    match k {
        ActionKind::Archive => KIND_ARCHIVE,
        ActionKind::Restore => KIND_RESTORE,
        ActionKind::Remove => KIND_REMOVE,
        ActionKind::Cancel => KIND_CANCEL,
    }
}

/// The kind with that number.
pub open spec fn number_kind(n: i32) -> Option<ActionKind> {
    if n == KIND_ARCHIVE {
        Some(ActionKind::Archive)
    } else if n == KIND_RESTORE {
        Some(ActionKind::Restore)
    } else if n == KIND_REMOVE {
        Some(ActionKind::Remove)
    } else if n == KIND_CANCEL {
        Some(ActionKind::Cancel)
    } else {
        None
    }
}

/// Number of a kind.
pub fn kind_to_number(k: ActionKind) -> (r: i32)
    ensures
        r == kind_number(k),
{
    match k {
        ActionKind::Archive => KIND_ARCHIVE,
        ActionKind::Restore => KIND_RESTORE,
        ActionKind::Remove => KIND_REMOVE,
        ActionKind::Cancel => KIND_CANCEL,
    }
}

/// The kind with that number.
pub fn kind_from_number(n: i32) -> (r: Option<ActionKind>)
    ensures
        r == number_kind(n),
{
    if n == KIND_ARCHIVE {
        Some(ActionKind::Archive)
    } else if n == KIND_RESTORE {
        Some(ActionKind::Restore)
    } else if n == KIND_REMOVE {
        Some(ActionKind::Remove)
    } else if n == KIND_CANCEL {
        Some(ActionKind::Cancel)
    } else {
        None
    }
}

/// Every kind is read back from its number.
pub proof fn lemma_kind_number_round_trip(k: ActionKind)
    ensures
        number_kind(kind_number(k)) == Some(k),
{
}

/// Metadata of an archived object.
#[derive(Debug, PartialEq, Eq)]
pub struct ObjectMsg {
    pub uuid: String,
    pub hash: Vec<u8>,
    pub url: String,
}

/// Model of [`ObjectMsg`]; the hash may have any length here.
#[verifier::ext_equal]
pub struct ObjectMsgView {
    pub uuid: Seq<char>,
    pub hash: Seq<u8>,
    pub url: Seq<char>,
}

impl View for ObjectMsg {
    type V = ObjectMsgView;

    open spec fn view(&self) -> ObjectMsgView {
        ObjectMsgView { uuid: self.uuid@, hash: self.hash@, url: self.url@ }
    }
}

impl Clone for ObjectMsg {
    fn clone(&self) -> (r: ObjectMsg)
        ensures
            r@ == self@,
    {
        let hash = self.hash.clone();
        proof {
            assert(hash@ =~= self.hash@);
        }
        ObjectMsg { uuid: self.uuid.clone(), hash, url: self.url.clone() }
    }
}

/// Model of an optional message.
pub open spec fn object_msg_opt(o: Option<ObjectMsg>) -> Option<ObjectMsgView> {
    match o {
        Some(m) => Some(m@),
        None => None,
    }
}

/// Exactly 32 bytes of hash: a longer one is cut, a shorter one filled up with
/// zeros.
pub open spec fn hash32(h: Seq<u8>) -> Seq<u8> {
    Seq::new(
        32,
        |i: int|
            if i < h.len() {
                h[i]
            } else {
                0u8
            },
    )
}

/// The object of a message.
pub open spec fn msg_object(m: ObjectMsgView) -> BackendObjectView {
    BackendObjectView { uuid: m.uuid, hash: hash32(m.hash), url: m.url }
}

/// The message of an object.
pub open spec fn object_msg(o: BackendObjectView) -> ObjectMsgView {
    ObjectMsgView { uuid: o.uuid, hash: o.hash, url: o.url }
}

/// Take 32 bytes of hash.
pub fn hash_from_proto(h: &[u8]) -> (r: [u8; 32])
    ensures
        r@ == hash32(h@),
{
    let mut out: [u8; 32] = [0u8;32];
    let mut i: usize = 0;
    while i < 32 && i < h.len()
        invariant
            i <= 32,
            i <= h@.len(),
            forall|j: int| 0 <= j < i ==> #[trigger] out@[j] == h@[j],
            forall|j: int| i <= j < 32 ==> #[trigger] out@[j] == 0,
        decreases 32 - i,
    {
        out[i] = h[i];
        i = i + 1;
    }
    proof {
        assert(out@ =~= hash32(h@));
    }
    out
}

/// The object of a message.
pub fn proto_to_backend_obj(m: ObjectMsg) -> (r: BackendObject)
    ensures
        r@ == msg_object(m@),
{
    let hash = hash_from_proto(m.hash.as_slice());
    BackendObject { uuid: m.uuid, hash, url: m.url }
}

/// The message of an object.
pub fn backend_obj_to_proto(o: BackendObject) -> (r: ObjectMsg)
    ensures
        r@ == object_msg(o@),
{
    let mut hash: Vec<u8> = Vec::new();
    let mut i: usize = 0;
    while i < 32
        invariant
            i <= 32,
            hash@ == o.hash@.take(i as int),
        decreases 32 - i,
    {
        hash.push(o.hash[i]);
        proof {
            assert(hash@ =~= o.hash@.take(i + 1));
        }
        i = i + 1;
    }
    proof {
        assert(o.hash@.take(32) =~= o.hash@);
    }
    ObjectMsg { uuid: o.uuid, hash, url: o.url }
}

/// An object that is sent and received is the same object.
pub proof fn lemma_object_round_trip(o: BackendObjectView)
    requires
        o.hash.len() == 32,
    ensures
        msg_object(object_msg(o)) == o,
{
    assert(hash32(o.hash) =~= o.hash);
}

/// Only the first 32 bytes of a received hash count.
pub proof fn lemma_hash_cut(m: ObjectMsgView, longer: Seq<u8>)
    requires
        m.hash.len() == 32,
    ensures
        msg_object(ObjectMsgView { hash: m.hash + longer, ..m }) == msg_object(m),
        msg_object(m).hash == m.hash,
{
    assert(hash32(m.hash + longer) =~= hash32(m.hash));
    assert(hash32(m.hash) =~= m.hash);
}

/// One unit of work sent to a plugin.
#[derive(Debug, PartialEq, Eq)]
pub struct ActionItem {
    pub cookie: u64,
    pub archive_id: u32,
    pub kind: i32,
    pub primary_path: String,
    pub write_path: String,
    pub offset: u64,
    pub length: u64,
    pub data: Vec<u8>,
    pub existing: Option<ObjectMsg>,
    pub fid_seq: u64,
    pub fid_oid: u32,
    pub fid_ver: u32,
    pub lustre_path: String,
}

/// Model of [`ActionItem`].
#[verifier::ext_equal]
pub struct ActionItemView {
    pub cookie: u64,
    pub archive_id: u32,
    pub kind: i32,
    pub primary_path: Seq<char>,
    pub write_path: Seq<char>,
    pub offset: u64,
    pub length: u64,
    pub data: Seq<u8>,
    pub existing: Option<ObjectMsgView>,
    pub fid_seq: u64,
    pub fid_oid: u32,
    pub fid_ver: u32,
    pub lustre_path: Seq<char>,
}

impl View for ActionItem {
    type V = ActionItemView;

    open spec fn view(&self) -> ActionItemView {
        ActionItemView {
            cookie: self.cookie,
            archive_id: self.archive_id,
            kind: self.kind,
            primary_path: self.primary_path@,
            write_path: self.write_path@,
            offset: self.offset,
            length: self.length,
            data: self.data@,
            existing: object_msg_opt(self.existing),
            fid_seq: self.fid_seq,
            fid_oid: self.fid_oid,
            fid_ver: self.fid_ver,
            lustre_path: self.lustre_path@,
        }
    }
}

/// A plugin's report on one action.
#[derive(Debug, PartialEq, Eq)]
pub struct StatusMsg {
    pub cookie: u64,
    pub bytes_advanced: u64,
    pub completed: bool,
    pub errno: i32,
    pub result: Option<ObjectMsg>,
}

/// Model of [`StatusMsg`].
#[verifier::ext_equal]
pub struct StatusMsgView {
    pub cookie: u64,
    pub bytes_advanced: u64,
    pub completed: bool,
    pub errno: i32,
    pub result: Option<ObjectMsgView>,
}

impl View for StatusMsg {
    type V = StatusMsgView;

    open spec fn view(&self) -> StatusMsgView {
        StatusMsgView {
            cookie: self.cookie,
            bytes_advanced: self.bytes_advanced,
            completed: self.completed,
            errno: self.errno,
            result: object_msg_opt(self.result),
        }
    }
}

/// First message of a plugin.
#[derive(Debug, PartialEq, Eq)]
pub struct Hello {
    pub agent_id: String,
    pub archive_ids: Vec<u32>,
    pub version: String,
}

/// First message of the daemon.
#[derive(Debug, PartialEq, Eq)]
pub struct Welcome {
    pub session_id: String,
}

/// What a plugin sends.
#[derive(Debug, PartialEq, Eq)]
pub enum FromPlugin {
    Hello(Hello),
    Status(StatusMsg),
    /// A message without a body.
    Empty,
}

/// What the daemon sends to a plugin.
#[derive(Debug, PartialEq, Eq)]
pub enum ToPlugin {
    Welcome(Welcome),
    Action(ActionItem),
    /// A message without a body.
    Empty,
}

/// An agent as the control tool sees it.
#[derive(Debug, PartialEq, Eq)]
pub struct CtlAgentInfo {
    pub agent_id: String,
    pub archive_ids: Vec<u32>,
    pub registered_at_secs: i64,
}

/// Daemon health as the control tool sees it.
#[derive(Debug, PartialEq, Eq)]
pub struct CtlStatusResponse {
    pub actions_waiting: u64,
    pub actions_started: u64,
    pub actions_total: u64,
    pub agents: Vec<CtlAgentInfo>,
}

/// An action as the control tool sees it.
#[derive(Debug, PartialEq, Eq)]
pub struct CtlActionRecord {
    pub cookie: u64,
    pub fid: String,
    pub archive_id: u32,
    pub kind: String,
    pub state: String,
    pub agent_id: String,
    pub progress: u64,
    pub since_ms: i64,
}

/// Model of [`CtlActionRecord`].
#[verifier::ext_equal]
pub struct CtlActionView {
    pub cookie: u64,
    pub fid: Seq<char>,
    pub archive_id: u32,
    pub kind: Seq<char>,
    pub state: Seq<char>,
    pub agent_id: Seq<char>,
    pub progress: u64,
    pub since_ms: i64,
}

impl View for CtlActionRecord {
    type V = CtlActionView;

    open spec fn view(&self) -> CtlActionView {
        CtlActionView {
            cookie: self.cookie,
            fid: self.fid@,
            archive_id: self.archive_id,
            kind: self.kind@,
            state: self.state@,
            agent_id: self.agent_id@,
            progress: self.progress,
            since_ms: self.since_ms,
        }
    }
}

} // verus!
