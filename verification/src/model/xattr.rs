//! Names of the extended attributes that carry a file's archive metadata.

use vstd::prelude::*;

verus! {

/// Backend object key.
pub const XATTR_UUID: &'static str = "trusted.lhsm_uuid";

/// Hex digest of the archived bytes.
pub const XATTR_HASH: &'static str = "trusted.lhsm_hash";

/// Full URL of the archived object.
pub const XATTR_URL: &'static str = "trusted.lhsm_url";

/// All attributes a daemon writes and reads.
pub const ALL: [&'static str; 3] = [XATTR_UUID, XATTR_HASH, XATTR_URL];

} // verus!
