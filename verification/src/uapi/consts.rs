//! Values of the HSM enumerations in `lustre_user.h`.

use vstd::prelude::*;

verus! {

// enum hsm_user_action
pub const HUA_NONE: u32 = 1;
pub const HUA_ARCHIVE: u32 = 10;
pub const HUA_RESTORE: u32 = 11;
pub const HUA_RELEASE: u32 = 12;
pub const HUA_REMOVE: u32 = 13;
pub const HUA_CANCEL: u32 = 14;

// enum hsm_copytool_action
pub const HSMA_NONE: u32 = 10;
pub const HSMA_ARCHIVE: u32 = 20;
pub const HSMA_RESTORE: u32 = 21;
pub const HSMA_REMOVE: u32 = 22;
pub const HSMA_CANCEL: u32 = 23;

// enum hsm_progress_states
pub const HPS_NONE: u32 = 0;
pub const HPS_WAITING: u32 = 1;
pub const HPS_RUNNING: u32 = 2;
pub const HPS_DONE: u32 = 3;

/// Magic of the kernel-userspace message envelope.
pub const KUC_MAGIC: u16 = 0x191C;

} // verus!
