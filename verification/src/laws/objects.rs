//! Files and objects: where a file is, and what is recorded on it.

use crate::ctl::args::{ImportArgs, Namespace};
use crate::ctl::hash;
use crate::ctl::hash::{decode_hash32, import_object};
use crate::daemon::paths;
use crate::daemon::paths::{bare_fid_text, join_path, path_of_fid, restore_temp_path};
use crate::daemon::xattr_store;
use crate::daemon::xattr_store::{
    attr_names, clear_obj, get_outcome, read_obj, remove_outcome, set_outcome, write_obj, AttrReply,
    FileAttrs, XattrErrorView, XattrNamespace, XattrResult,
};
use crate::model::backend;
use crate::model::fid;
use crate::model::xattr::{XATTR_HASH, XATTR_URL, XATTR_UUID};
use crate::model::{BackendObject, Cookie, Fid};
use crate::text;
use vstd::prelude::*;

verus! {

// ---------------------------------------------------------------------------
// Paths
// ---------------------------------------------------------------------------

/// A relative name below a directory is the directory, one slash, and the name. An
/// absolute name stands for itself.
pub proof fn lemma_join_call(base: &str, name: &str, r: String)
    requires
        call_ensures(join_path, (base, name), r),
    ensures
        name@.len() > 0 && name@[0] == '/' ==> r@ == name@,
        (name@.len() == 0 || name@[0] != '/') && base@.len() > 0 ==> {
            let n = if base@.last() == '/' {
                base@.len()
            } else {
                base@.len() + 1
            };
            &&& r@.len() == n + name@.len()
            &&& r@.take(base@.len() as int) == base@
            &&& r@[n - 1] == '/'
            &&& r@.skip(n as int) == name@
        },
        base@.len() == 0 ==> r@ == name@,
{
    reveal_strlit("/");
    if (name@.len() == 0 || name@[0] != '/') && base@.len() > 0 {
        let n = if base@.last() == '/' {
            base@.len()
        } else {
            base@.len() + 1
        };
        assert(r@.take(base@.len() as int) =~= base@);
        assert(r@.skip(n as int) =~= name@);
    }
    if base@.len() == 0 {
        assert(r@ =~= name@);
    }
}

/// The name of a file without brackets is read back as that file.
pub proof fn lemma_bare_name(f: Fid, name: String)
    requires
        call_ensures(bare_fid_text, (f,), name),
    ensures
        fid::parse_fid(name@) == Ok::<Fid, fid::FidParseErrorView>(f),
        name@.len() > 0,
        name@[0] == '0',
{
    reveal_strlit("0x");
    reveal_strlit("[");
    reveal_strlit("]");
    assert(fid::fid_text(f) =~= "["@ + paths::bare_fid(f) + "]"@);
    assert(fid::unbracketed(fid::fid_text(f)) =~= name@);
    fid::lemma_fid_brackets_optional(f);
}

/// On a real mount, a file is found under its own name below `.lustre/fid` of the
/// mount.
pub proof fn lemma_live_path(mount: &str, f: Fid, r: String, name: String)
    requires
        call_ensures(path_of_fid, (mount, true, f), r),
        call_ensures(bare_fid_text, (f,), name),
        mount@.len() > 0,
    ensures
        ({
            let n = if mount@.last() == '/' {
                mount@.len() as int
            } else {
                mount@.len() as int + 1
            };
            &&& r@.take(mount@.len() as int) == mount@
            &&& r@[n - 1] == '/'
            &&& r@.len() == n + 12 + name@.len()
            &&& r@.subrange(n, n + 12) == ".lustre/fid/"@
            &&& r@.skip(n + 12) == name@
        }),
{
    reveal_strlit("/");
    reveal_strlit(".lustre");
    reveal_strlit("fid");
    reveal_strlit(".lustre/fid/");
    lemma_bare_name(f, name);
    let n = if mount@.last() == '/' {
        mount@.len() as int
    } else {
        mount@.len() as int + 1
    };
    let one = paths::join(mount@, ".lustre"@);
    assert(one.last() == 'e');
    let two = paths::join(one, "fid"@);
    assert(two.last() == 'd');
    assert(r@ == two + "/"@ + name@);
    assert(r@.take(mount@.len() as int) =~= mount@);
    assert(r@.subrange(n, n + 12) =~= ".lustre/fid/"@);
    assert(r@.skip(n + 12) =~= name@);
}

/// Without a real mount, a file is a stand-in in the mount's directory that carries
/// the file's full text.
pub proof fn lemma_stand_in_path(mount: &str, f: Fid, r: String, full: String)
    requires
        call_ensures(path_of_fid, (mount, false, f), r),
        call_ensures(Fid::to_string, (&f,), full),
        mount@.len() > 0,
    ensures
        ({
            let n = if mount@.last() == '/' {
                mount@.len() as int
            } else {
                mount@.len() as int + 1
            };
            &&& r@.take(mount@.len() as int) == mount@
            &&& r@[n - 1] == '/'
            &&& r@.len() == n + 7 + full@.len()
            &&& r@.subrange(n, n + 7) == "__fid__"@
            &&& r@.skip(n + 7) == full@
        }),
{
    reveal_strlit("/");
    reveal_strlit("__fid__");
    let n = if mount@.last() == '/' {
        mount@.len() as int
    } else {
        mount@.len() as int + 1
    };
    assert(r@.take(mount@.len() as int) =~= mount@);
    assert(r@.subrange(n, n + 7) =~= "__fid__"@);
    assert(r@.skip(n + 7) =~= full@);
}

/// The text of a file's identifier is read back as that identifier.
pub proof fn lemma_fid_call(f: Fid, s: &str, full: String, back: Result<Fid, fid::FidParseError>)
    requires
        call_ensures(Fid::to_string, (&f,), full),
        s@ == full@,
        call_ensures(Fid::parse, (s,), back),
    ensures
        back == Ok::<Fid, fid::FidParseError>(f),
        full@[0] == '[',
        full@.last() == ']',
{
    fid::lemma_fid_text_round_trip(f);
    reveal_strlit("[");
    reveal_strlit("]");
}

/// A restore is collected in a place of its own, named after its cookie.
pub proof fn lemma_temp_place(c: Cookie, r: String)
    requires
        call_ensures(restore_temp_path, (c,), r),
    ensures
        r@.len() > 20,
        r@.take(20) == "/tmp/hsmd-restore-0x"@,
        text::parse_uint(r@.skip(20), 16, u64::MAX as nat) == Some(c.0 as nat),
{
    reveal_strlit("/tmp/hsmd-restore-");
    reveal_strlit("0x");
    reveal_strlit("/tmp/hsmd-restore-0x");
    text::lemma_numeral_digits(c.0 as nat, 16);
    text::lemma_parse_numeral(c.0 as nat, 16, u64::MAX as nat);
    assert(r@.take(20) =~= "/tmp/hsmd-restore-0x"@);
    assert(r@.skip(20) =~= text::numeral(c.0 as nat, 16));
}

// ---------------------------------------------------------------------------
// Attributes
// ---------------------------------------------------------------------------

/// The attributes of the production namespace have their fixed names, and those of the
/// other are the same but for the namespace.
pub proof fn lemma_attribute_names(
    ns: XattrNamespace,
    uuid: String,
    hash: String,
    url: String,
    all: Vec<String>,
)
    requires
        call_ensures(XattrNamespace::uuid_name, (ns,), uuid),
        call_ensures(XattrNamespace::hash_name, (ns,), hash),
        call_ensures(XattrNamespace::url_name, (ns,), url),
        call_ensures(attr_names, (ns,), all),
    ensures
        ns == XattrNamespace::Trusted ==> uuid@ == XATTR_UUID@ && hash@ == XATTR_HASH@ && url@
            == XATTR_URL@,
        ns == XattrNamespace::User ==> uuid@ == "user.lhsm_uuid"@ && hash@ == "user.lhsm_hash"@
            && url@ == "user.lhsm_url"@,
        all@.len() == 3,
        all@[0]@ == uuid@,
        all@[1]@ == hash@,
        all@[2]@ == url@,
        XATTR_UUID@ == "trusted.lhsm_uuid"@,
        XATTR_HASH@ == "trusted.lhsm_hash"@,
        XATTR_URL@ == "trusted.lhsm_url"@,
{
    reveal_strlit("trusted");
    reveal_strlit("user");
    reveal_strlit(".");
    reveal_strlit("lhsm_uuid");
    reveal_strlit("lhsm_hash");
    reveal_strlit("lhsm_url");
    reveal_strlit("trusted.lhsm_uuid");
    reveal_strlit("trusted.lhsm_hash");
    reveal_strlit("trusted.lhsm_url");
    reveal_strlit("user.lhsm_uuid");
    reveal_strlit("user.lhsm_hash");
    reveal_strlit("user.lhsm_url");
    if ns == XattrNamespace::Trusted {
        assert(uuid@ =~= "trusted.lhsm_uuid"@);
        assert(hash@ =~= "trusted.lhsm_hash"@);
        assert(url@ =~= "trusted.lhsm_url"@);
    } else {
        assert(uuid@ =~= "user.lhsm_uuid"@);
        assert(hash@ =~= "user.lhsm_hash"@);
        assert(url@ =~= "user.lhsm_url"@);
    }
    let v = text::views(all@);
    assert(v.len() == all@.len());
    assert(v[0] == all@[0]@);
    assert(v[1] == all@[1]@);
    assert(v[2] == all@[2]@);
}

/// An object that is recorded on a file is found there, whatever was there before.
/// What else the file has stays.
pub proof fn lemma_recorded_is_found(
    attrs: &mut FileAttrs,
    ns: XattrNamespace,
    obj: &BackendObject,
    done: (),
    after: &FileAttrs,
    path: &str,
    found: XattrResult<Option<BackendObject>>,
    other: Seq<char>,
)
    requires
        call_ensures(write_obj, (attrs, ns, obj), done),
        *after == *final(attrs),
        call_ensures(read_obj, (path, after, ns), found),
    ensures
        found matches Ok(Some(x)) && x@ == obj@,
        other != ns.attr("lhsm_uuid"@) && other != ns.attr("lhsm_hash"@) && other != ns.attr(
            "lhsm_url"@,
        ) ==> (final(attrs)@.contains_key(other) <==> old(attrs)@.contains_key(other)) && (old(
            attrs,
        )@.contains_key(other) ==> final(attrs)@[other] == old(attrs)@[other]),
{
    xattr_store::lemma_write_then_read(path@, attrs@, ns, obj@);
}

/// What is recorded can be read as text: the key and the URL as they are, the hash as
/// 64 lowercase hex digits.
pub proof fn lemma_recorded_as_text(
    attrs: &mut FileAttrs,
    ns: XattrNamespace,
    obj: &BackendObject,
    done: (),
    hex: String,
)
    requires
        call_ensures(write_obj, (attrs, ns, obj), done),
        call_ensures(BackendObject::hash_hex, (obj,), hex),
    ensures
        final(attrs)@[ns.attr("lhsm_uuid"@)] == vstd::utf8::encode_utf8(obj.uuid@),
        final(attrs)@[ns.attr("lhsm_hash"@)] == vstd::utf8::encode_utf8(hex@),
        final(attrs)@[ns.attr("lhsm_url"@)] == vstd::utf8::encode_utf8(obj.url@),
        hex@.len() == 64,
        forall|i: int|
            0 <= i < 64 ==> ('0' <= #[trigger] hex@[i] <= '9' || 'a' <= hex@[i] <= 'f'),
{
    xattr_store::lemma_names_distinct(ns, ns);
    backend::lemma_bytes_hex(obj.hash@);
}

/// An object that is cleared is not found, and what else the file has stays.
pub proof fn lemma_cleared_is_gone(
    attrs: &mut FileAttrs,
    ns: XattrNamespace,
    done: (),
    after: &FileAttrs,
    path: &str,
    found: XattrResult<Option<BackendObject>>,
    other: Seq<char>,
)
    requires
        call_ensures(clear_obj, (attrs, ns), done),
        *after == *final(attrs),
        call_ensures(read_obj, (path, after, ns), found),
    ensures
        found matches Ok(None),
        other != ns.attr("lhsm_uuid"@) && other != ns.attr("lhsm_hash"@) && other != ns.attr(
            "lhsm_url"@,
        ) ==> (final(attrs)@.contains_key(other) <==> old(attrs)@.contains_key(other)) && (old(
            attrs,
        )@.contains_key(other) ==> final(attrs)@[other] == old(attrs)@[other]),
{
    xattr_store::lemma_clear_then_read(path@, attrs@, ns);
}

/// What a file's attributes are read as. Without any of the three there is no object.
/// With some of them missing, the answer says how many are there and names the others.
/// With all of them, it is an object exactly if the key and the URL are text and the
/// hash is 64 hex digits; the object is then what the three say.
pub proof fn lemma_read_call(
    path: &str,
    attrs: &FileAttrs,
    ns: XattrNamespace,
    r: XattrResult<Option<BackendObject>>,
)
    requires
        call_ensures(read_obj, (path, attrs, ns), r),
    ensures
        ({
            let m = attrs@;
            let u = ns.attr("lhsm_uuid"@);
            let h = ns.attr("lhsm_hash"@);
            let l = ns.attr("lhsm_url"@);
            let all = m.contains_key(u) && m.contains_key(h) && m.contains_key(l);
            let some = m.contains_key(u) || m.contains_key(h) || m.contains_key(l);
            let hex = m[h].len() == 64 && forall|i: int|
                0 <= i < 64 ==> text::nibble(#[trigger] m[h][i]) is Some;
            &&& !some ==> r is Ok && r->Ok_0 is None
            &&& some && !all ==> r is Err && r->Err_0@ is Partial && {
                let e = r->Err_0@;
                &&& e->Partial_path == path@
                &&& e->present + e->missing.len() == 3
                &&& forall|n: Seq<char>| #[trigger]
                    e->missing.contains(n) <==> (n == u || n == h || n == l) && !m.contains_key(n)
            }
            &&& all && !vstd::utf8::valid_utf8(m[u]) ==> r is Err && r->Err_0@
                == (XattrErrorView::BadUtf8 { name: u, path: path@ })
            &&& all && vstd::utf8::valid_utf8(m[u]) && !vstd::utf8::valid_utf8(m[l]) ==> r is Err
                && r->Err_0@ == (XattrErrorView::BadUtf8 { name: l, path: path@ })
            &&& all && vstd::utf8::valid_utf8(m[u]) && vstd::utf8::valid_utf8(m[l]) && !hex ==> r
                is Err && r->Err_0@ is BadHash && r->Err_0@->BadHash_path == path@
            &&& all && vstd::utf8::valid_utf8(m[u]) && vstd::utf8::valid_utf8(m[l]) && hex ==> r
                is Ok && r->Ok_0 is Some && {
                let o = r->Ok_0->0@;
                &&& o.uuid == vstd::utf8::decode_utf8(m[u])
                &&& o.url == vstd::utf8::decode_utf8(m[l])
                &&& forall|i: int|
                    0 <= i < 32 ==> #[trigger] o.hash[i] == 16 * text::nibble(m[h][2 * i])->0
                        + text::nibble(m[h][2 * i + 1])->0
            }
        }),
{
    let m = attrs@;
    let u = ns.attr("lhsm_uuid"@);
    let h = ns.attr("lhsm_hash"@);
    let l = ns.attr("lhsm_url"@);
    xattr_store::lemma_names_distinct(ns, ns);
    xattr_store::lemma_hash_is_hex(m[h]);
    let missing = xattr_store::missing_names(m, ns);
    lemma_missing(m, u, h, l, missing);
    if r is Ok {
        assert(backend::object_opt_view(r->Ok_0) == xattr_store::stored(path@, m, ns)->Ok_0);
    }
}

/// The names that are missing.
proof fn lemma_missing(
    m: xattr_store::Attrs,
    u: Seq<char>,
    h: Seq<char>,
    l: Seq<char>,
    missing: Seq<Seq<char>>,
)
    requires
        missing == (if m.contains_key(u) {
            Seq::empty()
        } else {
            seq![u]
        }) + (if m.contains_key(h) {
            Seq::empty()
        } else {
            seq![h]
        }) + (if m.contains_key(l) {
            Seq::empty()
        } else {
            seq![l]
        }),
        u != h,
        u != l,
        h != l,
    ensures
        missing.len() == (if m.contains_key(u) {
            0int
        } else {
            1
        }) + (if m.contains_key(h) {
            0int
        } else {
            1
        }) + (if m.contains_key(l) {
            0int
        } else {
            1
        }),
        forall|n: Seq<char>| #[trigger]
            missing.contains(n) <==> (n == u || n == h || n == l) && !m.contains_key(n),
{
    let a: Seq<Seq<char>> = if m.contains_key(u) {
        Seq::empty()
    } else {
        seq![u]
    };
    let b: Seq<Seq<char>> = if m.contains_key(h) {
        Seq::empty()
    } else {
        seq![h]
    };
    let c: Seq<Seq<char>> = if m.contains_key(l) {
        Seq::empty()
    } else {
        seq![l]
    };
    assert forall|n: Seq<char>| #[trigger]
        missing.contains(n) <==> (n == u || n == h || n == l) && !m.contains_key(n) by {
        if missing.contains(n) {
            let i = choose|i: int| 0 <= i < missing.len() && missing[i] == n;
            if i < a.len() {
                assert(missing[i] == a[i]);
            } else if i < a.len() + b.len() {
                assert(missing[i] == b[i - a.len()]);
            } else {
                assert(missing[i] == c[i - a.len() - b.len()]);
            }
        }
        if n == u && !m.contains_key(u) {
            assert(missing[0] == u);
        }
        if n == h && !m.contains_key(h) {
            assert(missing[a.len() as int] == h);
        }
        if n == l && !m.contains_key(l) {
            assert(missing[a.len() as int + b.len() as int] == l);
        }
    }
}

/// A value that is set is the value that is got, until it is removed.
pub proof fn lemma_attribute_calls(
    a: &mut FileAttrs,
    b: &mut FileAttrs,
    name: String,
    word: &str,
    value: Vec<u8>,
    done: (),
    gone: (),
    between: &FileAttrs,
    after: &FileAttrs,
    got: Option<Vec<u8>>,
    not: Option<Vec<u8>>,
    other: Seq<char>,
)
    requires
        word@ == name@,
        call_ensures(FileAttrs::set, (a, name, value), done),
        *between == *final(a),
        call_ensures(FileAttrs::get, (between, word), got),
        *old(b) == *final(a),
        call_ensures(FileAttrs::remove, (b, word), gone),
        *after == *final(b),
        call_ensures(FileAttrs::get, (after, word), not),
    ensures
        got is Some && got->0@ == value@,
        not is None,
        other != name@ ==> (final(b)@.contains_key(other) <==> old(a)@.contains_key(other)),
        other != name@ && old(a)@.contains_key(other) ==> final(b)@[other] == old(a)@[other],
{
}

/// How the system's answers are taken: what was done is done; an attribute that is not
/// there is none when it is got and as good as removed; anything else is an error with
/// the system's words, under the operation and the file it was for.
pub proof fn lemma_answers(
    path: &str,
    g: AttrReply<Option<Vec<u8>>>,
    got: XattrResult<Option<Vec<u8>>>,
    d: AttrReply<()>,
    removed: XattrResult<()>,
    set: XattrResult<()>,
)
    requires
        call_ensures(get_outcome, (path, g), got),
        call_ensures(remove_outcome, (path, d), removed),
        call_ensures(set_outcome, (path, d), set),
    ensures
        g is Done ==> got is Ok && got->Ok_0 == g->Done_0,
        g is Refused && g->errno == Some(61i32) ==> got is Ok && got->Ok_0 is None,
        g is Refused && g->errno != Some(61i32) ==> got is Err && got->Err_0@
            == (XattrErrorView::Io { op: "get"@, path: path@, source: g->text@ }),
        d is Done ==> removed is Ok && set is Ok,
        d is Refused && d->errno == Some(61i32) ==> removed is Ok,
        d is Refused && d->errno != Some(61i32) ==> removed is Err && removed->Err_0@
            == (XattrErrorView::Io { op: "remove"@, path: path@, source: d->text@ }),
        d is Refused ==> set is Err && set->Err_0@ == (XattrErrorView::Io {
            op: "set"@,
            path: path@,
            source: d->text@,
        }),
{
}

// ---------------------------------------------------------------------------
// Hashes by hand
// ---------------------------------------------------------------------------

/// The hex digits, of either case, and their values; nothing else is one.
pub proof fn lemma_hex_digits(b: u8, r: Option<u8>)
    requires
        call_ensures(text::nibble_of, (b,), r),
    ensures
        48 <= b <= 57 ==> r == Some((b - 48) as u8),
        97 <= b <= 102 ==> r == Some((b - 97 + 10) as u8),
        65 <= b <= 70 ==> r == Some((b - 65 + 10) as u8),
        !(48 <= b <= 57 || 97 <= b <= 102 || 65 <= b <= 70) ==> r is None,
{
}

/// All from there on are digits exactly if no bad one is found.
proof fn lemma_first_bad(raw: Seq<u8>, i: int)
    requires
        0 <= i <= raw.len(),
    ensures
        i <= hash::first_bad(raw, i) <= raw.len(),
        forall|j: int|
            i <= j < hash::first_bad(raw, i) ==> text::nibble(#[trigger] raw[j]) is Some,
        hash::first_bad(raw, i) < raw.len() ==> text::nibble(raw[hash::first_bad(raw, i)]) is None,
    decreases raw.len() - i,
{
    if i < raw.len() && text::nibble(raw[i]) is Some {
        lemma_first_bad(raw, i + 1);
    }
}

/// A hash by hand is 64 hex digits, of either case, and nothing else: it is then the
/// 32 bytes that the pairs of digits stand for.
pub proof fn lemma_hash_by_hand(s: &str, r: Result<[u8; 32], String>)
    requires
        call_ensures(decode_hash32, (s,), r),
    ensures
        ({
            let raw = vstd::utf8::encode_utf8(s@);
            let hex = forall|i: int|
                0 <= i < raw.len() ==> text::nibble(#[trigger] raw[i]) is Some;
            &&& r is Ok <==> raw.len() == 64 && hex
            &&& r matches Ok(h) ==> forall|i: int|
                0 <= i < 32 ==> #[trigger] h@[i] == 16 * text::nibble(raw[2 * i])->0 + text::nibble(
                    raw[2 * i + 1],
                )->0
            &&& hex && raw.len() % 2 == 0 && raw.len() != 64 ==> r is Err && r->Err_0@
                == "expected 32 bytes (64 hex chars), got "@ + text::dec(raw.len() / 2)
                + " bytes"@
            &&& raw.len() % 2 != 0 ==> r is Err && r->Err_0@
                == "invalid hex: Odd number of digits"@
        }),
{
    let raw = vstd::utf8::encode_utf8(s@);
    lemma_first_bad(raw, 0);
    reveal_strlit("invalid hex: ");
    reveal_strlit("Odd number of digits");
    reveal_strlit("invalid hex: Odd number of digits");
    assert("invalid hex: "@ + "Odd number of digits"@ =~= "invalid hex: Odd number of digits"@);
    let bad = hash::first_bad(raw, 0);
    if bad < raw.len() {
        assert(text::nibble(raw[bad]) is None);
    }
    if r is Ok {
        let h = r->Ok_0@;
        assert forall|i: int| 0 <= i < 32 implies #[trigger] h[i] == 16 * text::nibble(
            raw[2 * i],
        )->0 + text::nibble(raw[2 * i + 1])->0 by {
            assert(text::nibble(raw[2 * i]) is Some);
            assert(text::nibble(raw[2 * i + 1]) is Some);
        }
    }
}

/// What is registered by hand is the object with that key, that hash and that URL; a
/// hash that is none is refused with the words it was given in.
pub proof fn lemma_import_call(
    a: &ImportArgs,
    h: &str,
    decoded: Result<[u8; 32], String>,
    r: Result<BackendObject, String>,
)
    requires
        h@ == a.hash_hex@,
        call_ensures(decode_hash32, (h,), decoded),
        call_ensures(import_object, (a,), r),
    ensures
        r is Ok <==> decoded is Ok,
        r is Ok ==> r->Ok_0.uuid@ == a.uuid@ && r->Ok_0.url@ == a.url@ && r->Ok_0.hash@
            == decoded->Ok_0@,
        r is Err ==> r->Err_0@ == "--hash "@ + a.hash_hex@ + ": "@ + decoded->Err_0@,
{
}

/// The hash that is printed of an object registers the same object again.
pub proof fn lemma_printed_hash_imports(
    o: &BackendObject,
    hex: String,
    a: &ImportArgs,
    r: Result<BackendObject, String>,
)
    requires
        call_ensures(BackendObject::hash_hex, (o,), hex),
        a.uuid@ == o.uuid@,
        a.url@ == o.url@,
        a.hash_hex@ == hex@,
        call_ensures(import_object, (a,), r),
    ensures
        r is Ok,
        r->Ok_0@ == o@,
{
    hash::lemma_hash_round_trip(o.hash@);
}

/// The namespace of the command line is that of the attributes.
pub proof fn lemma_namespace_call(n: Namespace, r: XattrNamespace)
    requires
        call_ensures(Namespace::to_xattr_ns, (n,), r),
    ensures
        n == Namespace::Trusted <==> r == XattrNamespace::Trusted,
        n == Namespace::User <==> r == XattrNamespace::User,
{
}

/// A hash that is not one says what is wrong with it: that it is no text, how long it
/// is, or which of its bytes is the first that is not written in hexadecimal.
pub proof fn lemma_bad_hash(raw: Seq<u8>, i: int)
    requires
        forall|j: int|
            0 <= j < i ==> text::nibble(#[trigger] raw[2 * j]) is Some && text::nibble(
                raw[2 * j + 1],
            ) is Some,
    ensures
        !vstd::utf8::valid_utf8(raw) ==> xattr_store::hash_value(raw) == Err::<
            Seq<u8>,
            Seq<char>,
        >("not UTF-8"@),
        vstd::utf8::valid_utf8(raw) && raw.len() != 64 ==> xattr_store::hash_value(raw) == Err::<
            Seq<u8>,
            Seq<char>,
        >("len "@ + text::dec(raw.len()) + " != 64"@),
        vstd::utf8::valid_utf8(raw) && raw.len() == 64 && 0 <= i < 32 && (text::nibble(raw[2 * i])
            is None || text::nibble(raw[2 * i + 1]) is None) ==> xattr_store::hash_value(raw)
            == Err::<Seq<u8>, Seq<char>>(
            "byte "@ + text::dec(i as nat) + ": invalid digit found in string"@,
        ),
        vstd::utf8::valid_utf8(raw) && raw.len() == 64 && i == 32 ==> xattr_store::hash_value(raw)
            is Ok,
{
    if vstd::utf8::valid_utf8(raw) && raw.len() == 64 && 0 <= i <= 32 && (i < 32 ==> text::nibble(
        raw[2 * i],
    ) is None || text::nibble(raw[2 * i + 1]) is None) {
        lemma_first_bad_byte(raw, 0, i);
    }
}

/// The first bad byte is where the digits stop.
proof fn lemma_first_bad_byte(raw: Seq<u8>, from: int, i: int)
    requires
        0 <= from <= i <= 32,
        forall|j: int|
            0 <= j < i ==> text::nibble(#[trigger] raw[2 * j]) is Some && text::nibble(
                raw[2 * j + 1],
            ) is Some,
        i < 32 ==> text::nibble(raw[2 * i]) is None || text::nibble(raw[2 * i + 1]) is None,
    ensures
        xattr_store::first_bad(raw, from) == i,
    decreases i - from,
{
    if from < i {
        assert(text::nibble(raw[2 * from]) is Some);
        lemma_first_bad_byte(raw, from + 1, i);
    }
}

} // verus!
