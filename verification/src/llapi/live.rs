//! What a live copytool hands to the kernel library, and what it makes of the
//! library's return codes.

use crate::llapi::error::{HsmError, HsmErrorView, Result};
use crate::llapi::mock::EINVAL;
use crate::model::ArchiveId;
use crate::text;
use vstd::prelude::*;

verus! {

/// The signed 32-bit number with the bit pattern of `x`.
pub open spec fn c_int(x: u32) -> i32 {
    if x <= i32::MAX {
        x as i32
    } else {
        (x - 0x1_0000_0000) as i32
    }
}

/// Archive numbers as the kernel library takes them.
pub open spec fn c_ints(s: Seq<ArchiveId>) -> Seq<i32> {
    s.map_values(|a: ArchiveId| c_int(a.0))
}

/// `r` is that error.
pub open spec fn fails<T>(r: Result<T>, e: HsmErrorView) -> bool {
    r matches Err(x) && x@ == e
}

/// `true` if `s` holds a NUL character.
fn has_nul(s: &str) -> (r: bool)
    ensures
        r == s@.contains('\0'),
{
    let cs = text::chars_of(s);
    let mut i: usize = 0;
    while i < cs.len()
        invariant
            i <= cs@.len(),
            cs@ == s@,
            forall|j: int| 0 <= j < i ==> cs@[j] != '\0',
        decreases cs.len() - i,
    {
        if cs[i] == '\0' {
            return true;
        }
        i = i + 1;
    }
    false
}

/// Check what to register with: at least one archive, and a mount point that can
/// be a C string. An empty list would mean "all archives" to the kernel, which
/// is rarely what a caller wants.
pub fn register_args(mount: &str, archives: &[ArchiveId]) -> (r: Result<Vec<i32>>)
    ensures
        if archives@.len() == 0 {
            fails(r, HsmErrorView::EmptyArchiveList)
        } else if mount@.contains('\0') {
            fails(r, HsmErrorView::Register { mount: mount@, errno: EINVAL })
        } else {
            r matches Ok(v) && v@ == c_ints(archives@)
        },
{
    if archives.len() == 0 {
        return Err(HsmError::EmptyArchiveList);
    }
    if has_nul(mount) {
        return Err(HsmError::Register { mount: mount.to_owned(), errno: EINVAL });
    }
    let mut out: Vec<i32> = Vec::new();
    let mut i: usize = 0;
    while i < archives.len()
        invariant
            i <= archives@.len(),
            out@ == c_ints(archives@.take(i as int)),
        decreases archives.len() - i,
    {
        let x: u32 = archives[i].0;
        let y: i32 = if x <= 0x7fff_ffff {
            x as i32
        } else {
            -((0xffff_ffff - x) as i32) - 1
        };
        out.push(y);
        proof {
            assert(out@ =~= c_ints(archives@.take(i + 1)));
        }
        i = i + 1;
    }
    proof {
        assert(archives@.take(i as int) =~= archives@);
    }
    Ok(out)
}

/// Outcome of a registration: a negative return code is an errno, and a missing
/// handle is as bad.
pub fn register_outcome(mount: &str, rc: i32, handle: bool) -> (r: Result<()>)
    requires
        rc > i32::MIN,
    ensures
        if rc < 0 {
            fails(r, HsmErrorView::Register { mount: mount@, errno: (-rc) as i32 })
        } else if !handle {
            fails(r, HsmErrorView::Register { mount: mount@, errno: EINVAL })
        } else {
            r is Ok
        },
{
    if rc < 0 {
        Err(HsmError::Register { mount: mount.to_owned(), errno: -rc })
    } else if !handle {
        Err(HsmError::Register { mount: mount.to_owned(), errno: EINVAL })
    } else {
        Ok(())
    }
}

/// Outcome of receiving an action list.
pub fn recv_outcome(rc: i32, list: bool) -> (r: Result<()>)
    requires
        rc > i32::MIN,
    ensures
        if rc < 0 {
            fails(r, HsmErrorView::Recv((-rc) as i32))
        } else if !list {
            fails(
                r,
                HsmErrorView::MalformedActionList {
                    reason: "llapi_hsm_copytool_recv returned NULL hsm_action_list"@,
                },
            )
        } else {
            r is Ok
        },
{
    if rc < 0 {
        Err(HsmError::Recv(-rc))
    } else if !list {
        Err(
            HsmError::MalformedActionList {
                reason: "llapi_hsm_copytool_recv returned NULL hsm_action_list".to_owned(),
            },
        )
    } else {
        Ok(())
    }
}

/// Outcome of beginning an action.
pub fn begin_outcome(rc: i32, handle: bool) -> (r: Result<()>)
    requires
        rc > i32::MIN,
    ensures
        if rc < 0 {
            fails(r, HsmErrorView::Begin((-rc) as i32))
        } else if !handle {
            fails(r, HsmErrorView::Begin(EINVAL))
        } else {
            r is Ok
        },
{
    if rc < 0 {
        Err(HsmError::Begin(-rc))
    } else if !handle {
        Err(HsmError::Begin(EINVAL))
    } else {
        Ok(())
    }
}

/// Outcome of asking for the file descriptor of an action.
pub fn action_fd_outcome(fd: i32) -> (r: Result<i32>)
    requires
        fd > i32::MIN,
    ensures
        if fd < 0 {
            fails(r, HsmErrorView::Begin((-fd) as i32))
        } else {
            r == Ok::<i32, HsmError>(fd)
        },
{
    if fd < 0 {
        Err(HsmError::Begin(-fd))
    } else {
        Ok(fd)
    }
}

/// Outcome of a progress report.
pub fn progress_outcome(rc: i32) -> (r: Result<()>)
    requires
        rc > i32::MIN,
    ensures
        if rc < 0 {
            fails(r, HsmErrorView::Progress((-rc) as i32))
        } else {
            r is Ok
        },
{
    if rc < 0 {
        Err(HsmError::Progress(-rc))
    } else {
        Ok(())
    }
}

/// Outcome of ending an action.
pub fn end_outcome(rc: i32) -> (r: Result<()>)
    requires
        rc > i32::MIN,
    ensures
        if rc < 0 {
            fails(r, HsmErrorView::End((-rc) as i32))
        } else {
            r is Ok
        },
{
    if rc < 0 {
        Err(HsmError::End(-rc))
    } else {
        Ok(())
    }
}

} // verus!
