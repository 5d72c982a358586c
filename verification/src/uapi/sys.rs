//! The records of the HSM interface, field for field.

use vstd::prelude::*;

verus! {

/// File identifier.
#[allow(non_camel_case_types)]
#[derive(Clone, Copy, Debug, PartialEq, Eq, Structural)]
pub struct lu_fid {
    pub f_seq: u64,
    pub f_oid: u32,
    pub f_ver: u32,
}

/// Byte range.
#[allow(non_camel_case_types)]
#[derive(Clone, Copy, Debug, PartialEq, Eq, Structural)]
pub struct hsm_extent {
    pub offset: u64,
    pub length: u64,
}

/// Fixed part of one requested action.
#[allow(non_camel_case_types)]
#[derive(Clone, Copy, Debug, PartialEq, Eq, Structural)]
pub struct hsm_action_item {
    pub hai_len: u32,
    pub hai_action: u32,
    pub hai_fid: lu_fid,
    pub hai_dfid: lu_fid,
    pub hai_extent: hsm_extent,
    pub hai_cookie: u64,
    pub hai_gid: u64,
}

/// Envelope of a kernel-userspace message.
#[allow(non_camel_case_types)]
#[derive(Clone, Copy, Debug, PartialEq, Eq, Structural)]
pub struct kuc_hdr {
    pub kuc_magic: u16,
    pub kuc_transport: u8,
    pub kuc_flags: u8,
    pub kuc_msgtype: u16,
    pub kuc_msglen: u16,
}

/// Bytes of the fixed part of an action item.
pub const HAI_SIZE: usize = 72;

/// Bytes of the fixed part of an action list.
pub const HAL_SIZE: usize = 32;

/// Offset of the item count within an action list.
pub const HAL_COUNT_AT: usize = 4;

/// Offset of the archive number within an action list.
pub const HAL_ARCHIVE_AT: usize = 24;

} // verus!
