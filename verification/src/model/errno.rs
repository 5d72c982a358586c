//! Completion status reported through the HSM interface.

use crate::text;
use vstd::prelude::*;

verus! {

/// A POSIX errno reported through the HSM interface; `0` means success.
#[derive(Clone, Copy, Debug, PartialEq, Eq, Structural, Hash)]
pub struct HsmErrno(pub i32);

impl HsmErrno {
    /// Success.
    pub fn ok() -> (r: HsmErrno)
        ensures
            r == HsmErrno(0),
    {
        HsmErrno(0)
    }

    /// Wrap a raw `i32`.
    pub fn new(v: i32) -> (r: HsmErrno)
        ensures
            r == HsmErrno(v),
    {
        HsmErrno(v)
    }

    /// `true` if this is the success sentinel (`0`).
    pub fn is_ok(self) -> (r: bool)
        ensures
            r == (self.0 == 0),
    {
        self.0 == 0
    }

    /// The raw value.
    pub fn get(self) -> (r: i32)
        ensures
            r == self.0,
    {
        self.0
    }

    /// `OK`, or `errno=` and the value.
    pub fn to_string(&self) -> (r: String)
        ensures
            r@ == (if self.0 == 0 {
                "OK"@
            } else {
                "errno="@ + text::dec_int(self.0 as int)
            }),
    {
        let mut out = String::new();
        if self.0 == 0 {
            out.append("OK");
            proof {
                assert(out@ =~= "OK"@);
            }
        } else {
            out.append("errno=");
            text::push_dec_int(&mut out, self.0 as i64);
            proof {
                assert(out@ =~= "errno="@ + text::dec_int(self.0 as int));
            }
        }
        out
    }
}

} // verus!
