//! Actions from a file, for running without a kernel.

use crate::llapi::lifecycle::{ReceivedAction, ReceivedView};
use crate::model::action::ActionView;
use crate::model::{ActionKind, ArchiveId, Cookie, Extent, Fid};
use crate::text;
use bytes::Bytes;
use vstd::prelude::*;

verus! {

// ---------------------------------------------------------------------------
// Lines
// ---------------------------------------------------------------------------

/// A character that Unicode counts as white space.
pub open spec fn white(c: char) -> bool {
    ||| '\t' <= c <= '\r'
    ||| c == ' '
    ||| c == '\u{85}'
    ||| c == '\u{a0}'
    ||| c == '\u{1680}'
    ||| '\u{2000}' <= c <= '\u{200a}'
    ||| c == '\u{2028}'
    ||| c == '\u{2029}'
    ||| c == '\u{202f}'
    ||| c == '\u{205f}'
    ||| c == '\u{3000}'
}

/// Nothing but white space.
pub open spec fn blank(s: Seq<char>) -> bool {
    forall|i: int| 0 <= i < s.len() ==> white(#[trigger] s[i])
}

/// `true` if there is nothing but white space.
fn is_blank(s: &str) -> (r: bool)
    ensures
        r == blank(s@),
{
    let cs = text::chars_of(s);
    let mut i: usize = 0;
    while i < cs.len()
        invariant
            i <= cs@.len(),
            cs@ == s@,
            forall|j: int| 0 <= j < i ==> white(#[trigger] s@[j]),
        decreases cs.len() - i,
    {
        let c: char = cs[i];
        let w = ('\t' <= c && c <= '\r') || c == ' ' || c == '\u{85}' || c == '\u{a0}' || c
            == '\u{1680}' || ('\u{2000}' <= c && c <= '\u{200a}') || c == '\u{2028}' || c
            == '\u{2029}' || c == '\u{202f}' || c == '\u{205f}' || c == '\u{3000}';
        if !w {
            proof {
                assert(!white(s@[i as int]));
            }
            return false;
        }
        i = i + 1;
    }
    true
}

/// The text without one carriage return at its end.
pub open spec fn without_return(s: Seq<char>) -> Seq<char> {
    if s.len() > 0 && s.last() == '\r' {
        s.drop_last()
    } else {
        s
    }
}

/// The lines of a text: what is between line feeds. A carriage return before a
/// line feed belongs to it.
pub open spec fn lines(s: Seq<char>) -> Seq<Seq<char>> {
    let p = text::split(s, '\n');
    Seq::new(
        p.len(),
        |i: int|
            if i + 1 < p.len() {
                without_return(p[i])
            } else {
                p[i]
            },
    )
}

/// The lines that hold something.
pub open spec fn entries(s: Seq<char>) -> Seq<Seq<char>> {
    lines(s).filter(|l: Seq<char>| !blank(l))
}

/// The text without one carriage return at its end.
fn strip_return(s: &String) -> (r: String)
    ensures
        r@ == without_return(s@),
{
    let cs = text::chars_of(s.as_str());
    if cs.len() > 0 && cs[cs.len() - 1] == '\r' {
        let r = text::string_of(cs.as_slice(), 0, cs.len() - 1);
        proof {
            assert(r@ =~= without_return(s@));
        }
        r
    } else {
        s.clone()
    }
}

/// What a file holds beyond what was seen before.
#[derive(Debug, PartialEq, Eq)]
pub struct NewLines {
    /// The new entries.
    pub lines: Vec<String>,
    /// How many entries there are in all.
    pub total: usize,
}

/// The entries of a file that come after the first `seen`. A file that has become
/// shorter has none.
pub fn new_lines(content: &str, seen: usize) -> (r: NewLines)
    ensures
        r.total == entries(content@).len(),
        text::views(r.lines@) == (if seen < entries(content@).len() {
            entries(content@).skip(seen as int)
        } else {
            Seq::empty()
        }),
{
    let cs = text::chars_of(content);
    let pieces = text::split_chars(cs.as_slice(), '\n');
    let ghost all = lines(content@);
    let ghost keep = |l: Seq<char>| !blank(l);
    let mut fresh: Vec<String> = Vec::new();
    let mut total: usize = 0;
    let mut i: usize = 0;
    proof {
        reveal(Seq::filter);
        assert(all.take(0) =~= Seq::<Seq<char>>::empty());
        assert(text::views(fresh@) =~= Seq::<Seq<char>>::empty());
    }
    while i < pieces.len()
        invariant
            i <= pieces@.len(),
            text::views(pieces@) == text::split(content@, '\n'),
            all == lines(content@),
            keep == (|l: Seq<char>| !blank(l)),
            total <= i,
            total == all.take(i as int).filter(keep).len(),
            text::views(fresh@) == (if seen < total {
                all.take(i as int).filter(keep).skip(seen as int)
            } else {
                Seq::empty()
            }),
        decreases pieces.len() - i,
    {
        let line = if i + 1 < pieces.len() {
            strip_return(&pieces[i])
        } else {
            pieces[i].clone()
        };
        let ghost s = all.take(i as int).filter(keep);
        let ghost before = text::views(fresh@);
        proof {
            reveal(Seq::filter);
            assert(text::views(pieces@)[i as int] == pieces@[i as int]@);
            assert(all.take(i + 1).drop_last() =~= all.take(i as int));
            assert(all.take(i + 1).last() == all[i as int]);
            assert(all[i as int] == line@);
        }
        if !is_blank(line.as_str()) {
            if total >= seen {
                fresh.push(line);
                proof {
                    assert(text::views(fresh@) =~= before.push(all[i as int]));
                    assert(s.push(all[i as int]).skip(seen as int) =~= s.skip(seen as int).push(
                        all[i as int],
                    ));
                    if seen == s.len() {
                        assert(s.skip(seen as int) =~= Seq::<Seq<char>>::empty());
                    }
                }
            }
            total = total + 1;
        }
        i = i + 1;
    }
    proof {
        assert(all.take(i as int) =~= all);
    }
    NewLines { lines: fresh, total }
}

// ---------------------------------------------------------------------------
// Actions
// ---------------------------------------------------------------------------

/// One action of the file.
#[derive(Debug, PartialEq, Eq)]
pub struct MockAction {
    /// Cookie.
    pub cookie: u64,
    /// Sequence of the FID.
    pub fid_seq: u64,
    /// Object id of the FID.
    pub fid_oid: u32,
    /// Version of the FID.
    pub fid_ver: u32,
    /// Archive.
    pub archive_id: u32,
    /// `archive`, `restore`, `remove` or `cancel`.
    pub kind: String,
    /// Bytes to transfer; the whole file without it or with 0.
    pub length: Option<u64>,
}

/// The kind of that name.
pub open spec fn named_kind(name: Seq<char>) -> Option<ActionKind> {
    if name == "archive"@ {
        Some(ActionKind::Archive)
    } else if name == "restore"@ {
        Some(ActionKind::Restore)
    } else if name == "remove"@ {
        Some(ActionKind::Remove)
    } else if name == "cancel"@ {
        Some(ActionKind::Cancel)
    } else {
        None
    }
}

/// The kind of that name.
fn kind_named(name: &str) -> (r: Option<ActionKind>)
    ensures
        r == named_kind(name@),
{
    if text::same(name, "archive") {
        Some(ActionKind::Archive)
    } else if text::same(name, "restore") {
        Some(ActionKind::Restore)
    } else if text::same(name, "remove") {
        Some(ActionKind::Remove)
    } else if text::same(name, "cancel") {
        Some(ActionKind::Cancel)
    } else {
        None
    }
}

/// The request that an entry stands for.
pub open spec fn requested(a: MockAction, kind: ActionKind) -> ReceivedView {
    let fid = Fid { seq: a.fid_seq, oid: a.fid_oid, ver: a.fid_ver };
    ReceivedView {
        action: ActionView {
            cookie: Cookie(a.cookie),
            fid,
            dfid: fid,
            archive_id: ArchiveId(a.archive_id),
            kind,
            extent: match a.length {
                None => Extent::spec_whole(),
                Some(n) => if n == 0 {
                    Extent::spec_whole()
                } else {
                    Extent { offset: 0, length: n }
                },
            },
            gid: 0,
            data: Seq::empty(),
        },
        fsname: "mock"@,
    }
}

/// The request that an entry stands for. An unknown kind is an error.
pub fn mock_action(a: &MockAction) -> (r: Result<ReceivedAction, String>)
    ensures
        match named_kind(a.kind@) {
            Some(kind) => r matches Ok(x) && x@ == requested(*a, kind),
            None => r matches Err(m) && m@ == "unknown kind "@ + text::debug_text(a.kind@),
        },
{
    let kind = match kind_named(a.kind.as_str()) {
        Some(k) => k,
        None => {
            let mut m = "unknown kind ".to_owned();
            m.append(text::debug_string(a.kind.as_str()).as_str());
            return Err(m);
        },
    };
    let extent = match a.length {
        None => Extent::whole(),
        Some(n) => if n == 0 {
            Extent::whole()
        } else {
            Extent::new(0, n)
        },
    };
    let fid = Fid::new(a.fid_seq, a.fid_oid, a.fid_ver);
    Ok(
        ReceivedAction {
            cookie: Cookie(a.cookie),
            fid,
            dfid: fid,
            archive_id: ArchiveId(a.archive_id),
            kind,
            extent,
            gid: 0,
            data: Bytes::new(),
            fsname: "mock".to_owned(),
        },
    )
}

// ---------------------------------------------------------------------------
// Laws
// ---------------------------------------------------------------------------

/// Reading a file in two steps, with the count of the first kept for the second,
/// gives every entry once: what was seen, then the rest.
pub proof fn lemma_nothing_read_twice(content: Seq<char>, seen: nat)
    requires
        seen <= entries(content).len(),
    ensures
        entries(content).take(seen as int) + entries(content).skip(seen as int) == entries(content),
{
    assert(entries(content).take(seen as int) + entries(content).skip(seen as int) =~= entries(
        content,
    ));
}

} // verus!
