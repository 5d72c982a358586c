//! Where the files of an action are found.

use crate::model::fid;
use crate::model::{Cookie, Fid};
use crate::text;
use vstd::prelude::*;

verus! {

/// `name` below `base`. An absolute `name` stands for itself.
pub open spec fn join(base: Seq<char>, name: Seq<char>) -> Seq<char> {
    if name.len() > 0 && name[0] == '/' {
        name
    } else if base.len() == 0 || base.last() == '/' {
        base + name
    } else {
        base + "/"@ + name
    }
}

/// `name` below `base`.
pub fn join_path(base: &str, name: &str) -> (r: String)
    ensures
        r@ == join(base@, name@),
{
    let bs = text::chars_of(base);
    let ns = text::chars_of(name);
    if ns.len() > 0 && ns[0] == '/' {
        return name.to_owned();
    }
    let mut out = base.to_owned();
    if bs.len() > 0 && bs[bs.len() - 1] != '/' {
        out.append("/");
    }
    out.append(name);
    out
}

/// Text of a FID without the brackets.
pub open spec fn bare_fid(f: Fid) -> Seq<char> {
    text::hex0x(f.seq as nat) + ":"@ + text::hex0x(f.oid as nat) + ":"@ + text::hex0x(f.ver as nat)
}

/// Text of a FID without the brackets.
pub fn bare_fid_text(f: Fid) -> (r: String)
    ensures
        r@ == bare_fid(f),
{
    let mut out = String::new();
    text::push_hex0x(&mut out, f.seq);
    out.append(":");
    text::push_hex0x(&mut out, f.oid as u64);
    out.append(":");
    text::push_hex0x(&mut out, f.ver as u64);
    proof {
        assert(out@ =~= bare_fid(f));
    }
    out
}

/// The file of a FID: below the virtual `.lustre/fid` directory of a live mount,
/// or a stand-in file otherwise.
pub open spec fn fid_path(mount: Seq<char>, live: bool, f: Fid) -> Seq<char> {
    if live {
        join(join(join(mount, ".lustre"@), "fid"@), bare_fid(f))
    } else {
        join(mount, "__fid__"@ + fid::fid_text(f))
    }
}

/// The file of a FID.
pub fn path_of_fid(mount: &str, live: bool, f: Fid) -> (r: String)
    ensures
        r@ == fid_path(mount@, live, f),
{
    if live {
        let a = join_path(mount, ".lustre");
        let b = join_path(a.as_str(), "fid");
        join_path(b.as_str(), bare_fid_text(f).as_str())
    } else {
        let mut name = "__fid__".to_owned();
        name.append(f.to_string().as_str());
        join_path(mount, name.as_str())
    }
}

/// Where a restored file is collected before it is handed to the kernel.
pub open spec fn temp_path(c: Cookie) -> Seq<char> {
    "/tmp/hsmd-restore-"@ + text::hex0x(c.0 as nat)
}

/// Where a restored file is collected before it is handed to the kernel: always
/// the same place for one cookie.
pub fn restore_temp_path(c: Cookie) -> (r: String)
    ensures
        r@ == temp_path(c),
{
    let mut out = "/tmp/hsmd-restore-".to_owned();
    text::push_hex0x(&mut out, c.0);
    out
}

/// Two numbers with the same hexadecimal text are the same.
proof fn lemma_hex0x_injective(a: nat, b: nat)
    requires
        text::hex0x(a) == text::hex0x(b),
    ensures
        a == b,
{
    let x = text::numeral(a, 16);
    let y = text::numeral(b, 16);
    reveal_strlit("0x");
    assert(text::hex0x(a).skip(2) =~= x);
    assert(text::hex0x(b).skip(2) =~= y);
    text::lemma_numeral_value(a, 16);
    text::lemma_numeral_value(b, 16);
}

/// Two actions never share a place to restore to.
pub proof fn lemma_temp_path_injective(a: Cookie, b: Cookie)
    requires
        temp_path(a) == temp_path(b),
    ensures
        a == b,
{
    let p = "/tmp/hsmd-restore-"@;
    assert(temp_path(a).skip(p.len() as int) =~= text::hex0x(a.0 as nat));
    assert(temp_path(b).skip(p.len() as int) =~= text::hex0x(b.0 as nat));
    lemma_hex0x_injective(a.0 as nat, b.0 as nat);
}

/// The bracketed text of a FID is its bare text in brackets.
proof fn lemma_bare_fid(f: Fid)
    ensures
        fid::fid_text(f) == "["@ + bare_fid(f) + "]"@,
{
    assert(fid::fid_text(f) =~= "["@ + bare_fid(f) + "]"@);
}

/// Joining a relative name to one directory tells the names apart.
proof fn lemma_join_injective(base: Seq<char>, a: Seq<char>, b: Seq<char>)
    requires
        a.len() > 0 && a[0] != '/',
        b.len() > 0 && b[0] != '/',
        join(base, a) == join(base, b),
    ensures
        a == b,
{
    reveal_strlit("/");
    let n: int = if base.len() == 0 || base.last() == '/' {
        base.len() as int
    } else {
        base.len() as int + 1
    };
    assert(join(base, a).skip(n) =~= a);
    assert(join(base, b).skip(n) =~= b);
}

/// Two files of one mount never share a path.
pub proof fn lemma_fid_path_injective(mount: Seq<char>, live: bool, f: Fid, g: Fid)
    requires
        fid_path(mount, live, f) == fid_path(mount, live, g),
    ensures
        f == g,
{
    reveal_strlit("0x");
    reveal_strlit("[");
    reveal_strlit("__fid__");
    lemma_bare_fid(f);
    lemma_bare_fid(g);
    if live {
        let base = join(join(mount, ".lustre"@), "fid"@);
        lemma_join_injective(base, bare_fid(f), bare_fid(g));
    } else {
        let a = "__fid__"@ + fid::fid_text(f);
        let b = "__fid__"@ + fid::fid_text(g);
        lemma_join_injective(mount, a, b);
        assert(a.skip(7) =~= fid::fid_text(f));
        assert(b.skip(7) =~= fid::fid_text(g));
    }
    fid::lemma_fid_text_injective(f, g);
}

} // verus!
