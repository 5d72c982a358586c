//! Conversions between the interface records and the domain types.

use crate::model::{ActionKind, Cookie, Extent, Fid};
use crate::text;
use crate::uapi::consts::{HSMA_ARCHIVE, HSMA_CANCEL, HSMA_REMOVE, HSMA_RESTORE};
use crate::uapi::sys::{hsm_extent, lu_fid};
use vstd::prelude::*;

verus! {

/// Conversion failures.
#[derive(Clone, Copy, Debug, PartialEq, Eq, Structural)]
pub enum ConvError {
    /// The wire value is not an action the daemon acts on. `HSMA_NONE` is one of
    /// these: the kernel uses it as a placeholder.
    UnknownCopytoolAction(u32),
}

impl ConvError {
    /// Human-readable description.
    pub fn to_string(&self) -> (r: String)
        ensures
            self matches ConvError::UnknownCopytoolAction(v) && r@
                == "unknown hsm_copytool_action value: "@ + text::dec(v as nat),
    {
        let ConvError::UnknownCopytoolAction(v) = self;
        let mut out = "unknown hsm_copytool_action value: ".to_owned();
        text::push_dec(&mut out, *v as u128);
        out
    }
}

/// The FID of a wire record.
pub open spec fn sys_fid(f: lu_fid) -> Fid {
    Fid { seq: f.f_seq, oid: f.f_oid, ver: f.f_ver }
}

/// The wire record of a FID.
pub open spec fn fid_sys(f: Fid) -> lu_fid {
    lu_fid { f_seq: f.seq, f_oid: f.oid, f_ver: f.ver }
}

/// The kind a wire value stands for.
pub open spec fn wire_kind(v: u32) -> Option<ActionKind> {
    if v == HSMA_ARCHIVE {
        Some(ActionKind::Archive)
    } else if v == HSMA_RESTORE {
        Some(ActionKind::Restore)
    } else if v == HSMA_REMOVE {
        Some(ActionKind::Remove)
    } else if v == HSMA_CANCEL {
        Some(ActionKind::Cancel)
    } else {
        None
    }
}

/// The wire value of a kind.
pub open spec fn kind_wire(k: ActionKind) -> u32 {
    match k {
        ActionKind::Archive => HSMA_ARCHIVE,
        ActionKind::Restore => HSMA_RESTORE,
        ActionKind::Remove => HSMA_REMOVE,
        ActionKind::Cancel => HSMA_CANCEL,
    }
}

/// The extent of a wire record.
pub open spec fn sys_extent(e: hsm_extent) -> Extent {
    Extent { offset: e.offset, length: e.length }
}

/// The wire record of an extent.
pub open spec fn extent_sys(e: Extent) -> hsm_extent {
    hsm_extent { offset: e.offset, length: e.length }
}

/// Convert a wire `lu_fid` to a [`Fid`].
pub fn fid_from_sys(f: lu_fid) -> (r: Fid)
    ensures
        r == sys_fid(f),
{
    Fid { seq: f.f_seq, oid: f.f_oid, ver: f.f_ver }
}

/// Convert a [`Fid`] to a wire `lu_fid`.
pub fn fid_to_sys(f: Fid) -> (r: lu_fid)
    ensures
        r == fid_sys(f),
{
    lu_fid { f_seq: f.seq, f_oid: f.oid, f_ver: f.ver }
}

/// Convert the wire action number to an [`ActionKind`].
pub fn action_kind_from_wire(v: u32) -> (r: Result<ActionKind, ConvError>)
    ensures
        r == (match wire_kind(v) {
            Some(k) => Ok::<ActionKind, ConvError>(k),
            None => Err(ConvError::UnknownCopytoolAction(v)),
        }),
{
    if v == HSMA_ARCHIVE {
        Ok(ActionKind::Archive)
    } else if v == HSMA_RESTORE {
        Ok(ActionKind::Restore)
    } else if v == HSMA_REMOVE {
        Ok(ActionKind::Remove)
    } else if v == HSMA_CANCEL {
        Ok(ActionKind::Cancel)
    } else {
        Err(ConvError::UnknownCopytoolAction(v))
    }
}

/// Convert an [`ActionKind`] to the wire action number.
pub fn action_kind_to_wire(k: ActionKind) -> (r: u32)
    ensures
        r == kind_wire(k),
{
    match k {
        ActionKind::Archive => HSMA_ARCHIVE,
        ActionKind::Restore => HSMA_RESTORE,
        ActionKind::Remove => HSMA_REMOVE,
        ActionKind::Cancel => HSMA_CANCEL,
    }
}

/// Convert a wire `hsm_extent` to an [`Extent`].
pub fn extent_from_sys(e: hsm_extent) -> (r: Extent)
    ensures
        r == sys_extent(e),
{
    Extent { offset: e.offset, length: e.length }
}

/// Convert an [`Extent`] to a wire `hsm_extent`.
pub fn extent_to_sys(e: Extent) -> (r: hsm_extent)
    ensures
        r == extent_sys(e),
{
    hsm_extent { offset: e.offset, length: e.length }
}

/// Wrap a raw wire cookie.
pub fn cookie_from_wire(v: u64) -> (r: Cookie)
    ensures
        r == Cookie(v),
{
    Cookie(v)
}

/// Unwrap a [`Cookie`] to its wire value.
pub fn cookie_to_wire(c: Cookie) -> (r: u64)
    ensures
        r == c.0,
{
    c.0
}

/// Every conversion undoes its counterpart.
pub proof fn lemma_conversions_round_trip(f: Fid, s: lu_fid, e: Extent, x: hsm_extent, k: ActionKind)
    ensures
        sys_fid(fid_sys(f)) == f,
        fid_sys(sys_fid(s)) == s,
        sys_extent(extent_sys(e)) == e,
        extent_sys(sys_extent(x)) == x,
        wire_kind(kind_wire(k)) == Some(k),
{
}

/// A wire value that is accepted as a kind is the value of that kind.
pub proof fn lemma_wire_kind_exact(v: u32)
    ensures
        wire_kind(v) matches Some(k) ==> kind_wire(k) == v,
{
}

} // verus!
