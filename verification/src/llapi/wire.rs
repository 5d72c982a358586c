//! Reading the action lists that the kernel sends.
//!
//! A list is a fixed prefix, a NUL-terminated filesystem name padded to eight
//! bytes, and as many items as the prefix says. An item is a fixed part, which
//! holds the length of the whole item, and opaque data up to that length; items
//! start at multiples of eight bytes. Numbers are little-endian.

use crate::llapi::error::{HsmError, HsmErrorView, Result};
use crate::llapi::lifecycle;
use crate::llapi::lifecycle::{ReceivedAction, ReceivedView};
use crate::model::action::ActionView;
use crate::model::{ActionKind, ArchiveId, Cookie};
use crate::text;
use crate::uapi::conv;
use crate::uapi::sys::{
    hsm_action_item, hsm_extent, lu_fid, HAI_SIZE, HAL_ARCHIVE_AT, HAL_COUNT_AT, HAL_SIZE,
};
use bytes::Bytes;
use vstd::prelude::*;

verus! {

// ---------------------------------------------------------------------------
// Model
// ---------------------------------------------------------------------------

/// The little-endian number in `n` bytes from `at` on.
pub open spec fn le(b: Seq<u8>, at: int, n: nat) -> nat
    decreases n,
{
    if n == 0 {
        0
    } else {
        (b[at] as nat + 256 * le(b, at + 1, (n - 1) as nat)) as nat
    }
}

/// The fixed part of the item at `at`.
pub open spec fn item_at(b: Seq<u8>, at: int) -> hsm_action_item {
    hsm_action_item {
        hai_len: le(b, at, 4) as u32,
        hai_action: le(b, at + 4, 4) as u32,
        hai_fid: fid_at(b, at + 8),
        hai_dfid: fid_at(b, at + 24),
        hai_extent: hsm_extent { offset: le(b, at + 40, 8) as u64, length: le(b, at + 48, 8) as u64 },
        hai_cookie: le(b, at + 56, 8) as u64,
        hai_gid: le(b, at + 64, 8) as u64,
    }
}

/// The file identifier at `at`.
pub open spec fn fid_at(b: Seq<u8>, at: int) -> lu_fid {
    lu_fid {
        f_seq: le(b, at, 8) as u64,
        f_oid: le(b, at + 8, 4) as u32,
        f_ver: le(b, at + 12, 4) as u32,
    }
}

/// The smallest multiple of `to` that is not below `value`.
pub open spec fn aligned(value: int, to: int) -> int {
    ((value + to - 1) / to) * to
}

/// The first NUL at or after `at`, or the length.
pub open spec fn nul_at(b: Seq<u8>, at: int) -> int
    decreases b.len() - at,
{
    if at >= b.len() {
        b.len() as int
    } else if b[at] == 0 {
        at
    } else {
        nul_at(b, at + 1)
    }
}

/// A malformed list.
pub open spec fn malformed<T>(reason: Seq<char>) -> core::result::Result<T, HsmErrorView> {
    Err(HsmErrorView::MalformedActionList { reason })
}

/// The action of the item at `at` in a list for `archive` and `fsname`.
pub open spec fn received_at(
    b: Seq<u8>,
    at: int,
    archive: ArchiveId,
    fsname: Seq<char>,
    kind: ActionKind,
) -> ReceivedView {
    let h = item_at(b, at);
    ReceivedView {
        action: ActionView {
            cookie: Cookie(h.hai_cookie),
            fid: conv::sys_fid(h.hai_fid),
            dfid: conv::sys_fid(h.hai_dfid),
            archive_id: archive,
            kind,
            extent: conv::sys_extent(h.hai_extent),
            gid: h.hai_gid,
            data: b.subrange(at + HAI_SIZE, at + h.hai_len),
        },
        fsname,
    }
}

/// The actions of the items numbered from `i` up to `count`, the first of them
/// at `at`; or what is wrong with the first bad one.
pub open spec fn parse_items(
    b: Seq<u8>,
    at: int,
    i: int,
    count: int,
    archive: ArchiveId,
    fsname: Seq<char>,
) -> core::result::Result<Seq<ReceivedView>, HsmErrorView>
    decreases count - i,
{
    if i >= count {
        Ok(Seq::empty())
    } else if at + HAI_SIZE > b.len() {
        malformed(
            "hai #"@ + text::dec(i as nat) + " prefix exceeds buffer ("@ + text::dec(at as nat)
                + " > "@ + text::dec(b.len()) + ")"@,
        )
    } else {
        let h = item_at(b, at);
        if h.hai_len < HAI_SIZE || at + h.hai_len > b.len() {
            malformed(
                "hai #"@ + text::dec(i as nat) + " hai_len="@ + text::dec(h.hai_len as nat)
                    + " invalid"@,
            )
        } else {
            match conv::wire_kind(h.hai_action) {
                None => Err(HsmErrorView::UnknownActionKind(h.hai_action)),
                Some(kind) => match parse_items(
                    b,
                    at + aligned(h.hai_len as int, 8),
                    i + 1,
                    count,
                    archive,
                    fsname,
                ) {
                    Ok(rest) => Ok(seq![received_at(b, at, archive, fsname, kind)] + rest),
                    Err(e) => Err(e),
                },
            }
        }
    }
}

/// The actions of a list, or what is wrong with it.
pub open spec fn parse_list(b: Seq<u8>) -> core::result::Result<Seq<ReceivedView>, HsmErrorView> {
    let nul = nul_at(b, HAL_SIZE as int);
    let name = b.subrange(HAL_SIZE as int, nul);
    if b.len() < HAL_SIZE {
        malformed(
            "buffer ("@ + text::dec(b.len())
                + " B) shorter than fixed hsm_action_list prefix"@,
        )
    } else if nul >= b.len() {
        malformed(
            "hal_fsname has no NUL terminator within "@ + text::dec((b.len() - HAL_SIZE) as nat)
                + " bytes"@,
        )
    } else if !vstd::utf8::valid_utf8(name) {
        malformed("hal_fsname is not utf-8: "@ + text::utf8_error_text(name))
    } else {
        parse_items(
            b,
            HAL_SIZE + aligned(nul - HAL_SIZE + 1, 8),
            0,
            le(b, HAL_COUNT_AT as int, 4) as int,
            ArchiveId(le(b, HAL_ARCHIVE_AT as int, 4) as u32),
            vstd::utf8::decode_utf8(name),
        )
    }
}

// ---------------------------------------------------------------------------
// Arithmetic
// ---------------------------------------------------------------------------

/// `n` bytes hold a number below 256 to the `n`.
proof fn lemma_le4(b: Seq<u8>, at: int)
    ensures
        le(b, at, 4) == b[at] + 0x100 * b[at + 1] + 0x1_0000 * b[at + 2] + 0x100_0000 * b[at + 3],
        le(b, at, 4) <= u32::MAX,
{
    reveal_with_fuel(le, 5);
}

/// Eight bytes are two times four.
proof fn lemma_le8(b: Seq<u8>, at: int)
    ensures
        le(b, at, 8) == le(b, at, 4) + 0x1_0000_0000 * le(b, at + 4, 4),
        le(b, at, 8) <= u64::MAX,
{
    reveal_with_fuel(le, 9);
    lemma_le4(b, at);
    lemma_le4(b, at + 4);
}

/// What rounding up gives.
pub proof fn lemma_aligned(value: int, to: int)
    requires
        value >= 0,
        to > 0,
    ensures
        aligned(value, to) % to == 0,
        value <= aligned(value, to) < value + to,
{
    let x = value + to - 1;
    vstd::arithmetic::div_mod::lemma_fundamental_div_mod(x, to);
    vstd::arithmetic::div_mod::lemma_mod_bound(x, to);
    vstd::arithmetic::mul::lemma_mul_is_commutative(x / to, to);
    vstd::arithmetic::div_mod::lemma_mod_multiples_basic(x / to, to);
}

/// Round `value` up to a multiple of `to`.
pub fn align_up(value: usize, to: usize) -> (r: usize)
    requires
        to > 0,
        value + to - 1 <= usize::MAX,
    ensures
        r == aligned(value as int, to as int),
        r as int % to as int == 0,
        value <= r < value + to,
{
    proof {
        lemma_aligned(value as int, to as int);
        assert((value + to - 1) / to as int * to <= value + to - 1) by (nonlinear_arith)
            requires
                to > 0,
        ;
    }
    ((value + (to - 1)) / to) * to
}

/// Read a 32-bit number.
fn read_u32(b: &[u8], at: usize) -> (r: u32)
    requires
        at + 4 <= b.len(),
    ensures
        r == le(b@, at as int, 4),
{
    proof {
        lemma_le4(b@, at as int);
    }
    b[at] as u32 + 0x100 * (b[at + 1] as u32) + 0x1_0000 * (b[at + 2] as u32) + 0x100_0000 * (b[at
        + 3] as u32)
}

/// Read a 64-bit number.
fn read_u64(b: &[u8], at: usize) -> (r: u64)
    requires
        at + 8 <= b.len(),
    ensures
        r == le(b@, at as int, 8),
{
    proof {
        lemma_le8(b@, at as int);
    }
    read_u32(b, at) as u64 + 0x1_0000_0000 * (read_u32(b, at + 4) as u64)
}

/// Read a file identifier.
fn read_fid(b: &[u8], at: usize) -> (r: lu_fid)
    requires
        at + 16 <= b.len(),
    ensures
        r == fid_at(b@, at as int),
{
    lu_fid { f_seq: read_u64(b, at), f_oid: read_u32(b, at + 8), f_ver: read_u32(b, at + 12) }
}

/// Read the fixed part of an item.
fn read_item(b: &[u8], at: usize) -> (r: hsm_action_item)
    requires
        at + HAI_SIZE <= b.len(),
    ensures
        r == item_at(b@, at as int),
{
    hsm_action_item {
        hai_len: read_u32(b, at),
        hai_action: read_u32(b, at + 4),
        hai_fid: read_fid(b, at + 8),
        hai_dfid: read_fid(b, at + 24),
        hai_extent: hsm_extent { offset: read_u64(b, at + 40), length: read_u64(b, at + 48) },
        hai_cookie: read_u64(b, at + 56),
        hai_gid: read_u64(b, at + 64),
    }
}

// ---------------------------------------------------------------------------
// Reading
// ---------------------------------------------------------------------------

/// The filesystem name from `at` on, and its length in bytes.
fn read_cstr(b: &[u8], at: usize) -> (r: Result<(String, usize)>)
    requires
        at <= b@.len(),
    ensures
        ({
            let nul = nul_at(b@, at as int);
            let name = b@.subrange(at as int, nul);
            if nul >= b@.len() {
                r matches Err(e) && e@ == (HsmErrorView::MalformedActionList {
                    reason: "hal_fsname has no NUL terminator within "@ + text::dec(
                        (b@.len() - at) as nat,
                    ) + " bytes"@,
                })
            } else if !vstd::utf8::valid_utf8(name) {
                r matches Err(e) && e@ == (HsmErrorView::MalformedActionList {
                    reason: "hal_fsname is not utf-8: "@ + text::utf8_error_text(name),
                })
            } else {
                r matches Ok(p) && p.0@ == vstd::utf8::decode_utf8(name) && p.1 == nul - at
            }
        }),
{
    let mut i: usize = at;
    while i < b.len()
        invariant
            at <= i <= b@.len(),
            nul_at(b@, at as int) == nul_at(b@, i as int),
        decreases b.len() - i,
    {
        if b[i] == 0 {
            let name = vstd::slice::slice_subrange(b, at, i);
            return match text::utf8_text(name) {
                Ok(s) => Ok((s, i - at)),
                Err(m) => {
                    let mut reason = "hal_fsname is not utf-8: ".to_owned();
                    reason.append(m.as_str());
                    Err(HsmError::MalformedActionList { reason })
                },
            };
        }
        i = i + 1;
    }
    let mut reason = "hal_fsname has no NUL terminator within ".to_owned();
    text::push_dec(&mut reason, (b.len() - at) as u128);
    reason.append(" bytes");
    Err(HsmError::MalformedActionList { reason })
}

/// Item `i` does not fit.
fn prefix_exceeds(i: u32, at: u128, total: usize) -> (e: HsmError)
    ensures
        e@ == (HsmErrorView::MalformedActionList {
            reason: "hai #"@ + text::dec(i as nat) + " prefix exceeds buffer ("@ + text::dec(
                at as nat,
            ) + " > "@ + text::dec(total as nat) + ")"@,
        }),
{
    let mut reason = "hai #".to_owned();
    text::push_dec(&mut reason, i as u128);
    reason.append(" prefix exceeds buffer (");
    text::push_dec(&mut reason, at);
    reason.append(" > ");
    text::push_dec(&mut reason, total as u128);
    reason.append(")");
    HsmError::MalformedActionList { reason }
}

/// Item `i` states an impossible length.
fn bad_length(i: u32, len: u32) -> (e: HsmError)
    ensures
        e@ == (HsmErrorView::MalformedActionList {
            reason: "hai #"@ + text::dec(i as nat) + " hai_len="@ + text::dec(len as nat)
                + " invalid"@,
        }),
{
    let mut reason = "hai #".to_owned();
    text::push_dec(&mut reason, i as u128);
    reason.append(" hai_len=");
    text::push_dec(&mut reason, len as u128);
    reason.append(" invalid");
    HsmError::MalformedActionList { reason }
}

/// Read the actions out of an action list.
pub fn parse_action_list(b: &[u8]) -> (r: Result<Vec<ReceivedAction>>)
    ensures
        match parse_list(b@) {
            Ok(s) => r matches Ok(v) && lifecycle::received_views(v@) == s,
            Err(e) => r matches Err(x) && x@ == e,
        },
{
    let total: usize = b.len();
    if total < HAL_SIZE {
        let mut reason = "buffer (".to_owned();
        text::push_dec(&mut reason, total as u128);
        reason.append(" B) shorter than fixed hsm_action_list prefix");
        return Err(HsmError::MalformedActionList { reason });
    }
    let count: u32 = read_u32(b, HAL_COUNT_AT);
    let archive = ArchiveId(read_u32(b, HAL_ARCHIVE_AT));
    let (fsname, name_len): (String, usize) = match read_cstr(b, HAL_SIZE) {
        Ok(p) => p,
        Err(e) => {
            return Err(e);
        },
    };
    proof {
        lemma_aligned(name_len + 1, 8);
    }
    let mut at: u128 = HAL_SIZE as u128 + ((name_len as u128 + 8) / 8) * 8;
    let mut out: Vec<ReceivedAction> = Vec::new();
    let mut i: u32 = 0;
    let ghost goal = parse_items(b@, at as int, 0, count as int, archive, fsname@);
    proof {
        assert(lifecycle::received_views(out@) =~= Seq::<ReceivedView>::empty());
        if goal is Ok {
            assert(lifecycle::received_views(out@) + goal->Ok_0 =~= goal->Ok_0);
        }
    }
    while i < count
        invariant
            i <= count,
            total == b@.len(),
            at <= total + 72,
            prefixed(
                goal,
                lifecycle::received_views(out@),
                parse_items(b@, at as int, i as int, count as int, archive, fsname@),
            ),
            goal == parse_list(b@),
        decreases count - i,
    {
        if at + HAI_SIZE as u128 > total as u128 {
            return Err(prefix_exceeds(i, at, total));
        }
        let pos: usize = at as usize;
        let h = read_item(b, pos);
        let len: u128 = h.hai_len as u128;
        if len < HAI_SIZE as u128 || at + len > total as u128 {
            return Err(bad_length(i, h.hai_len));
        }
        let kind = match conv::action_kind_from_wire(h.hai_action) {
            Ok(k) => k,
            Err(e) => {
                return Err(HsmError::from(e));
            },
        };
        let end: usize = pos + h.hai_len as usize;
        let data = vstd::slice::slice_subrange(b, pos + HAI_SIZE, end);
        let got = ReceivedAction {
            cookie: Cookie(h.hai_cookie),
            fid: conv::fid_from_sys(h.hai_fid),
            dfid: conv::fid_from_sys(h.hai_dfid),
            archive_id: archive,
            kind,
            extent: conv::extent_from_sys(h.hai_extent),
            gid: h.hai_gid,
            data: Bytes::copy_from_slice(data),
            fsname: fsname.clone(),
        };
        let ghost done = lifecycle::received_views(out@);
        let ghost v = got@;
        proof {
            assert(v =~= received_at(b@, at as int, archive, fsname@, kind));
            lemma_aligned(len as int, 8);
        }
        out.push(got);
        let ghost next = parse_items(
            b@,
            at + aligned(len as int, 8),
            i + 1,
            count as int,
            archive,
            fsname@,
        );
        proof {
            assert(lifecycle::received_views(out@) =~= done.push(v));
            if next is Ok {
                assert(done + (seq![v] + next->Ok_0) =~= done.push(v) + next->Ok_0);
            }
        }
        at = at + ((len + 7) / 8) * 8;
        i = i + 1;
    }
    proof {
        assert(lifecycle::received_views(out@) + Seq::<ReceivedView>::empty()
            =~= lifecycle::received_views(out@));
    }
    Ok(out)
}

/// `goal` is `rest` with `done` in front, or the same error.
spec fn prefixed(
    goal: core::result::Result<Seq<ReceivedView>, HsmErrorView>,
    done: Seq<ReceivedView>,
    rest: core::result::Result<Seq<ReceivedView>, HsmErrorView>,
) -> bool {
    match rest {
        Ok(s) => goal == Ok::<Seq<ReceivedView>, HsmErrorView>(done + s),
        Err(e) => goal == Err::<Seq<ReceivedView>, HsmErrorView>(e),
    }
}

/// The fixed part that begins an action, without its data.
pub fn build_hsm_action_item(a: &ReceivedAction) -> (r: hsm_action_item)
    ensures
        r == (hsm_action_item {
            hai_len: HAI_SIZE as u32,
            hai_action: conv::kind_wire(a@.action.kind),
            hai_fid: conv::fid_sys(a@.action.fid),
            hai_dfid: conv::fid_sys(a@.action.dfid),
            hai_extent: conv::extent_sys(a@.action.extent),
            hai_cookie: a@.action.cookie.0,
            hai_gid: a@.action.gid,
        }),
{
    hsm_action_item {
        hai_len: HAI_SIZE as u32,
        hai_action: conv::action_kind_to_wire(a.kind),
        hai_fid: conv::fid_to_sys(a.fid),
        hai_dfid: conv::fid_to_sys(a.dfid),
        hai_extent: conv::extent_to_sys(a.extent),
        hai_cookie: a.cookie.0,
        hai_gid: a.gid,
    }
}

} // verus!
