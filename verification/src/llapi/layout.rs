//! How an action list is laid out in bytes, and that reading one gives back what
//! was laid out.

use crate::llapi::error::HsmErrorView;
use crate::llapi::lifecycle::ReceivedView;
use crate::llapi::wire;
use crate::model::action::ActionView;
use crate::model::{ArchiveId, Fid};
use crate::uapi::conv;
use crate::uapi::sys::{HAI_SIZE, HAL_ARCHIVE_AT, HAL_COUNT_AT, HAL_SIZE};
use vstd::prelude::*;

verus! {

// ---------------------------------------------------------------------------
// Layout
// ---------------------------------------------------------------------------

/// `x` in `n` bytes, the lowest first.
pub open spec fn le_bytes(x: nat, n: nat) -> Seq<u8>
    decreases n,
{
    if n == 0 {
        Seq::empty()
    } else {
        seq![(x % 256) as u8] + le_bytes(x / 256, (n - 1) as nat)
    }
}

/// `n` NUL bytes.
pub open spec fn nuls(n: nat) -> Seq<u8> {
    Seq::new(n, |i: int| 0u8)
}

/// The NUL bytes that bring `len` bytes up to a multiple of eight.
pub open spec fn padding(len: nat) -> Seq<u8> {
    nuls((wire::aligned(len as int, 8) - len) as nat)
}

/// A file identifier.
pub open spec fn fid_bytes(f: Fid) -> Seq<u8> {
    le_bytes(f.seq as nat, 8) + le_bytes(f.oid as nat, 4) + le_bytes(f.ver as nat, 4)
}

/// The fixed part of an item.
pub open spec fn item_head(a: ActionView) -> Seq<u8> {
    le_bytes(HAI_SIZE as nat + a.data.len(), 4) + le_bytes(conv::kind_wire(a.kind) as nat, 4)
        + fid_bytes(a.fid) + fid_bytes(a.dfid) + le_bytes(a.extent.offset as nat, 8) + le_bytes(
        a.extent.length as nat,
        8,
    ) + le_bytes(a.cookie.0 as nat, 8) + le_bytes(a.gid as nat, 8)
}

/// One item with its data and the padding behind it.
pub open spec fn item_bytes(a: ActionView) -> Seq<u8> {
    item_head(a) + a.data + padding(HAI_SIZE as nat + a.data.len())
}

/// Items one behind the other.
pub open spec fn items_bytes(actions: Seq<ActionView>) -> Seq<u8>
    decreases actions.len(),
{
    if actions.len() == 0 {
        Seq::empty()
    } else {
        item_bytes(actions[0]) + items_bytes(actions.drop_first())
    }
}

/// What the fixed part of a list holds besides the number of items.
pub struct ListHead {
    pub version: u32,
    pub compound_id: u64,
    pub flags: u64,
    pub archive: ArchiveId,
}

/// The fixed part of a list of `count` items.
pub open spec fn head_bytes(h: ListHead, count: nat) -> Seq<u8> {
    le_bytes(h.version as nat, 4) + le_bytes(count, 4) + le_bytes(h.compound_id as nat, 8)
        + le_bytes(h.flags as nat, 8) + le_bytes(h.archive.0 as nat, 4) + nuls(4)
}

/// A whole list.
pub open spec fn list_bytes(h: ListHead, fsname: Seq<char>, actions: Seq<ActionView>) -> Seq<u8> {
    let name = vstd::utf8::encode_utf8(fsname);
    head_bytes(h, actions.len()) + name + nuls(1) + padding(name.len() + 1) + items_bytes(actions)
}

/// What can be laid out: the name holds no NUL, the items are for the archive of
/// the list, and the counters hold what they count.
pub open spec fn fits(h: ListHead, fsname: Seq<char>, actions: Seq<ActionView>) -> bool {
    &&& actions.len() <= u32::MAX
    &&& forall|i: int| 0 <= i < fsname.len() ==> #[trigger] fsname[i] != '\0'
    &&& forall|i: int|
        0 <= i < actions.len() ==> (#[trigger] actions[i]).archive_id == h.archive
            && actions[i].data.len() + HAI_SIZE <= u32::MAX
}

// ---------------------------------------------------------------------------
// Numbers
// ---------------------------------------------------------------------------

/// `n` bytes are `n` bytes.
proof fn lemma_le_bytes_len(x: nat, n: nat)
    ensures
        le_bytes(x, n).len() == n,
    decreases n,
{
    if n > 0 {
        lemma_le_bytes_len(x / 256, (n - 1) as nat);
    }
}

/// What is left of `x` after dropping its `n` lowest bytes.
spec fn above(x: nat, n: nat) -> nat
    decreases n,
{
    if n == 0 {
        x
    } else {
        above(x / 256, (n - 1) as nat)
    }
}

/// A number that was laid out is read back.
proof fn lemma_le_read(b: Seq<u8>, at: int, x: nat, n: nat)
    requires
        0 <= at,
        at + n <= b.len(),
        b.subrange(at, at + n) == le_bytes(x, n),
        above(x, n) == 0,
    ensures
        wire::le(b, at, n) == x,
    decreases n,
{
    if n > 0 {
        let rest = le_bytes(x / 256, (n - 1) as nat);
        lemma_le_bytes_len(x / 256, (n - 1) as nat);
        let s = le_bytes(x, n);
        assert(b[at] == b.subrange(at, at + n)[0]);
        assert(s[0] == (x % 256) as u8);
        assert(b.subrange(at + 1, at + n) =~= rest) by {
            assert(b.subrange(at, at + n).subrange(1, n as int) =~= b.subrange(at + 1, at + n));
            assert(s.subrange(1, n as int) =~= rest);
        }
        lemma_le_read(b, at + 1, x / 256, (n - 1) as nat);
    }
}

/// Four bytes hold every 32-bit number.
proof fn lemma_above_4(x: nat)
    requires
        x <= u32::MAX,
    ensures
        above(x, 4) == 0,
{
    reveal_with_fuel(above, 5);
}

/// Eight bytes hold every 64-bit number.
proof fn lemma_above_8(x: nat)
    requires
        x <= u64::MAX,
    ensures
        above(x, 8) == 0,
{
    reveal_with_fuel(above, 9);
}

/// A 32-bit field at `off` of a piece that stands at `at`.
proof fn lemma_field_4(b: Seq<u8>, at: int, piece: Seq<u8>, off: int, x: nat)
    requires
        0 <= at,
        at + piece.len() <= b.len(),
        b.subrange(at, at + piece.len()) == piece,
        0 <= off,
        off + 4 <= piece.len(),
        piece.subrange(off, off + 4) == le_bytes(x, 4),
        x <= u32::MAX,
    ensures
        wire::le(b, at + off, 4) == x,
{
    assert(b.subrange(at, at + piece.len()).subrange(off, off + 4) =~= b.subrange(
        at + off,
        at + off + 4,
    ));
    lemma_above_4(x);
    lemma_le_read(b, at + off, x, 4);
}

/// A 64-bit field at `off` of a piece that stands at `at`.
proof fn lemma_field_8(b: Seq<u8>, at: int, piece: Seq<u8>, off: int, x: nat)
    requires
        0 <= at,
        at + piece.len() <= b.len(),
        b.subrange(at, at + piece.len()) == piece,
        0 <= off,
        off + 8 <= piece.len(),
        piece.subrange(off, off + 8) == le_bytes(x, 8),
        x <= u64::MAX,
    ensures
        wire::le(b, at + off, 8) == x,
{
    assert(b.subrange(at, at + piece.len()).subrange(off, off + 8) =~= b.subrange(
        at + off,
        at + off + 8,
    ));
    lemma_above_8(x);
    lemma_le_read(b, at + off, x, 8);
}

// ---------------------------------------------------------------------------
// Items
// ---------------------------------------------------------------------------

/// The fixed part of an item that stands at `at` is read back.
proof fn lemma_item_head(b: Seq<u8>, at: int, a: ActionView)
    requires
        0 <= at,
        at + HAI_SIZE <= b.len(),
        b.subrange(at, at + HAI_SIZE) == item_head(a),
        a.data.len() + HAI_SIZE <= u32::MAX,
    ensures
        wire::item_at(b, at).hai_len == HAI_SIZE + a.data.len(),
        wire::item_at(b, at).hai_action == conv::kind_wire(a.kind),
        conv::sys_fid(wire::item_at(b, at).hai_fid) == a.fid,
        conv::sys_fid(wire::item_at(b, at).hai_dfid) == a.dfid,
        conv::sys_extent(wire::item_at(b, at).hai_extent) == a.extent,
        wire::item_at(b, at).hai_cookie == a.cookie.0,
        wire::item_at(b, at).hai_gid == a.gid,
{
    let p = item_head(a);
    let f0 = le_bytes(HAI_SIZE as nat + a.data.len(), 4);
    let f1 = le_bytes(conv::kind_wire(a.kind) as nat, 4);
    let f2 = le_bytes(a.fid.seq as nat, 8);
    let f3 = le_bytes(a.fid.oid as nat, 4);
    let f4 = le_bytes(a.fid.ver as nat, 4);
    let f5 = le_bytes(a.dfid.seq as nat, 8);
    let f6 = le_bytes(a.dfid.oid as nat, 4);
    let f7 = le_bytes(a.dfid.ver as nat, 4);
    let f8 = le_bytes(a.extent.offset as nat, 8);
    let f9 = le_bytes(a.extent.length as nat, 8);
    let f10 = le_bytes(a.cookie.0 as nat, 8);
    let f11 = le_bytes(a.gid as nat, 8);
    lemma_item_head_len(a);
    assert(p.subrange(0, 4) =~= f0);
    assert(p.subrange(4, 8) =~= f1);
    assert(p.subrange(8, 16) =~= f2);
    assert(p.subrange(16, 20) =~= f3);
    assert(p.subrange(20, 24) =~= f4);
    assert(p.subrange(24, 32) =~= f5);
    assert(p.subrange(32, 36) =~= f6);
    assert(p.subrange(36, 40) =~= f7);
    assert(p.subrange(40, 48) =~= f8);
    assert(p.subrange(48, 56) =~= f9);
    assert(p.subrange(56, 64) =~= f10);
    assert(p.subrange(64, 72) =~= f11);
    lemma_field_4(b, at, p, 0, HAI_SIZE as nat + a.data.len());
    lemma_field_4(b, at, p, 4, conv::kind_wire(a.kind) as nat);
    lemma_field_8(b, at, p, 8, a.fid.seq as nat);
    lemma_field_4(b, at, p, 16, a.fid.oid as nat);
    lemma_field_4(b, at, p, 20, a.fid.ver as nat);
    lemma_field_8(b, at, p, 24, a.dfid.seq as nat);
    lemma_field_4(b, at, p, 32, a.dfid.oid as nat);
    lemma_field_4(b, at, p, 36, a.dfid.ver as nat);
    lemma_field_8(b, at, p, 40, a.extent.offset as nat);
    lemma_field_8(b, at, p, 48, a.extent.length as nat);
    lemma_field_8(b, at, p, 56, a.cookie.0 as nat);
    lemma_field_8(b, at, p, 64, a.gid as nat);
}

/// Lengths within the fixed part of an item.
proof fn lemma_item_head_len(a: ActionView)
    ensures
        item_head(a).len() == HAI_SIZE,
        fid_bytes(a.fid).len() == 16,
        fid_bytes(a.dfid).len() == 16,
        forall|x: nat| #[trigger] le_bytes(x, 4).len() == 4,
        forall|x: nat| #[trigger] le_bytes(x, 8).len() == 8,
{
    assert forall|x: nat| #[trigger] le_bytes(x, 4).len() == 4 by {
        lemma_le_bytes_len(x, 4);
    }
    assert forall|x: nat| #[trigger] le_bytes(x, 8).len() == 8 by {
        lemma_le_bytes_len(x, 8);
    }
}

/// A kind is read back from its number.
proof fn lemma_kind(a: ActionView)
    ensures
        conv::wire_kind(conv::kind_wire(a.kind)) == Some(a.kind),
{
}

/// Items that fill a buffer from `at` on are read back.
proof fn lemma_items(
    b: Seq<u8>,
    at: int,
    i: int,
    count: int,
    archive: ArchiveId,
    fsname: Seq<char>,
    actions: Seq<ActionView>,
)
    requires
        0 <= at <= b.len(),
        b.skip(at) == items_bytes(actions),
        count - i == actions.len(),
        forall|j: int|
            0 <= j < actions.len() ==> (#[trigger] actions[j]).archive_id == archive
                && actions[j].data.len() + HAI_SIZE <= u32::MAX,
    ensures
        wire::parse_items(b, at, i, count, archive, fsname) == Ok::<
            Seq<ReceivedView>,
            HsmErrorView,
        >(actions.map_values(|a: ActionView| ReceivedView { action: a, fsname })),
    decreases actions.len(),
{
    let view = |a: ActionView| ReceivedView { action: a, fsname };
    let all = actions.map_values(view);
    if actions.len() == 0 {
        assert(all =~= Seq::<ReceivedView>::empty());
    } else {
        let a = actions[0];
        let rest = actions.drop_first();
        let head = item_head(a);
        let item = item_bytes(a);
        let tail = items_bytes(rest);
        let len = (HAI_SIZE + a.data.len()) as int;
        lemma_item_head_len(a);
        wire::lemma_aligned(len, 8);
        assert(b.skip(at) == item + tail);
        assert(b.skip(at).len() == b.len() - at);
        assert(item.len() == wire::aligned(len, 8));
        assert(b.subrange(at, at + HAI_SIZE) =~= head) by {
            assert(b.subrange(at, at + HAI_SIZE) =~= b.skip(at).subrange(0, HAI_SIZE as int));
        }
        lemma_item_head(b, at, a);
        assert(b.subrange(at + HAI_SIZE, at + len) =~= a.data) by {
            assert(b.subrange(at + HAI_SIZE, at + len) =~= b.skip(at).subrange(
                HAI_SIZE as int,
                len,
            ));
        }
        lemma_kind(a);
        let next = at + wire::aligned(len, 8);
        assert(b.skip(next) =~= tail) by {
            assert(b.skip(next) =~= b.skip(at).skip(item.len() as int));
        }
        assert forall|j: int| 0 <= j < rest.len() implies (#[trigger] rest[j]).archive_id == archive
            && rest[j].data.len() + HAI_SIZE <= u32::MAX by {
            assert(rest[j] == actions[j + 1]);
        }
        lemma_items(b, next, i + 1, count, archive, fsname, rest);
        assert(wire::received_at(b, at, archive, fsname, a.kind).action =~= a);
        assert(all =~= seq![view(a)] + rest.map_values(view));
    }
}

// ---------------------------------------------------------------------------
// The name
// ---------------------------------------------------------------------------

/// A character other than NUL is encoded without NUL.
proof fn lemma_scalar_has_no_nul(c: char)
    requires
        c != '\0',
    ensures
        forall|i: int|
            0 <= i < vstd::utf8::encode_scalar(c as u32).len() ==> #[trigger] vstd::utf8::encode_scalar(
                c as u32,
            )[i] != 0,
{
    let s = c as u32;
    assert(s != 0);
    assert(s <= 0x7f && s != 0 ==> (s & 0x7f) as u8 != 0) by (bit_vector);
    assert(forall|x: u8| #[trigger] (0xC0u8 | x) != 0) by (bit_vector);
    assert(forall|x: u8| #[trigger] (0xE0u8 | x) != 0) by (bit_vector);
    assert(forall|x: u8| #[trigger] (0xF0u8 | x) != 0) by (bit_vector);
    assert(forall|x: u8| #[trigger] (0x80u8 | x) != 0) by (bit_vector);
}

/// A text without NUL is encoded without NUL.
proof fn lemma_text_has_no_nul(s: Seq<char>)
    requires
        forall|i: int| 0 <= i < s.len() ==> #[trigger] s[i] != '\0',
    ensures
        forall|i: int|
            0 <= i < vstd::utf8::encode_utf8(s).len() ==> #[trigger] vstd::utf8::encode_utf8(s)[i]
                != 0,
    decreases s.len(),
{
    if s.len() > 0 {
        let rest = s.drop_first();
        assert forall|i: int| 0 <= i < rest.len() implies #[trigger] rest[i] != '\0' by {
            assert(rest[i] == s[i + 1]);
        }
        lemma_scalar_has_no_nul(s[0]);
        lemma_text_has_no_nul(rest);
        let c = vstd::utf8::encode_scalar(s[0] as u32);
        let r = vstd::utf8::encode_utf8(rest);
        let e = vstd::utf8::encode_utf8(s);
        assert(e == c + r);
        assert forall|i: int| 0 <= i < e.len() implies #[trigger] e[i] != 0 by {
            if i < c.len() {
                assert(e[i] == c[i]);
            } else {
                assert(e[i] == r[i - c.len()]);
            }
        }
    }
}

/// The first NUL is where it stands.
proof fn lemma_nul_at(b: Seq<u8>, at: int, nul: int)
    requires
        0 <= at <= nul < b.len(),
        b[nul] == 0,
        forall|i: int| at <= i < nul ==> #[trigger] b[i] != 0,
    ensures
        wire::nul_at(b, at) == nul,
    decreases nul - at,
{
    if at < nul {
        lemma_nul_at(b, at + 1, nul);
    }
}

// ---------------------------------------------------------------------------
// Law
// ---------------------------------------------------------------------------

/// Reading a list gives back the actions that were laid out in it, each with the
/// filesystem name, for every list that can be laid out.
pub proof fn lemma_list_round_trip(h: ListHead, fsname: Seq<char>, actions: Seq<ActionView>)
    requires
        fits(h, fsname, actions),
    ensures
        wire::parse_list(list_bytes(h, fsname, actions)) == Ok::<Seq<ReceivedView>, HsmErrorView>(
            actions.map_values(|a: ActionView| ReceivedView { action: a, fsname }),
        ),
{
    let name = vstd::utf8::encode_utf8(fsname);
    let head = head_bytes(h, actions.len());
    let b = list_bytes(h, fsname, actions);
    let n = name.len() as int;
    let nul = HAL_SIZE + n;
    lemma_head(h, actions.len());
    wire::lemma_aligned(n + 1, 8);
    assert(b.subrange(0, HAL_SIZE as int) =~= head);
    lemma_field_4(b, 0, head, HAL_COUNT_AT as int, actions.len());
    lemma_field_4(b, 0, head, HAL_ARCHIVE_AT as int, h.archive.0 as nat);
    assert(b.subrange(HAL_SIZE as int, nul) =~= name);
    assert(b[nul] == 0);
    lemma_text_has_no_nul(fsname);
    assert forall|i: int| HAL_SIZE <= i < nul implies #[trigger] b[i] != 0 by {
        assert(b[i] == name[i - HAL_SIZE]);
    }
    lemma_nul_at(b, HAL_SIZE as int, nul);
    vstd::utf8::encode_utf8_valid_utf8(fsname);
    vstd::utf8::encode_utf8_decode_utf8(fsname);
    let first = HAL_SIZE + wire::aligned(n + 1, 8);
    assert(b.skip(first) =~= items_bytes(actions));
    lemma_items(b, first, 0, actions.len() as int, h.archive, fsname, actions);
}

/// The fixed part of a list.
proof fn lemma_head(h: ListHead, count: nat)
    ensures
        head_bytes(h, count).len() == HAL_SIZE,
        head_bytes(h, count).subrange(HAL_COUNT_AT as int, HAL_COUNT_AT + 4) == le_bytes(count, 4),
        head_bytes(h, count).subrange(HAL_ARCHIVE_AT as int, HAL_ARCHIVE_AT + 4) == le_bytes(
            h.archive.0 as nat,
            4,
        ),
{
    let p = head_bytes(h, count);
    lemma_le_bytes_len(h.version as nat, 4);
    lemma_le_bytes_len(count, 4);
    lemma_le_bytes_len(h.compound_id as nat, 8);
    lemma_le_bytes_len(h.flags as nat, 8);
    lemma_le_bytes_len(h.archive.0 as nat, 4);
    assert(p.subrange(4, 8) =~= le_bytes(count, 4));
    assert(p.subrange(24, 28) =~= le_bytes(h.archive.0 as nat, 4));
}

} // verus!
