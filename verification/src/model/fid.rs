//! Lustre File Identifier (FID).
//!
//! FIDs are written `[seq:oid:ver]`, each component in `0x`-prefixed lowercase
//! hexadecimal, as Lustre's own tools print them.

use crate::text;
use std::str::FromStr;
use vstd::prelude::*;

verus! {

/// Lustre File Identifier.
#[derive(Clone, Copy, Debug, PartialEq, Eq, Structural, Hash)]
pub struct Fid {
    /// Sequence: scopes the (oid, ver) pair.
    pub seq: u64,
    /// Object identifier within the sequence.
    pub oid: u32,
    /// Version: usually 0.
    pub ver: u32,
}

/// Failure parsing a string into a [`Fid`].
#[derive(Debug, PartialEq, Eq)]
pub enum FidParseError {
    /// The input does not have three `:`-separated components.
    BadShape(String),
    /// One of the components is not a hexadecimal integer of its width.
    BadHex {
        /// Which of seq/oid/ver failed.
        component: &'static str,
        /// The offending component as it was written.
        value: String,
    },
}

/// Model of [`FidParseError`].
pub enum FidParseErrorView {
    BadShape(Seq<char>),
    BadHex { component: Seq<char>, value: Seq<char> },
}

impl View for FidParseError {
    type V = FidParseErrorView;

    open spec fn view(&self) -> FidParseErrorView {
        match *self {
            FidParseError::BadShape(s) => FidParseErrorView::BadShape(s@),
            FidParseError::BadHex { component, value } => FidParseErrorView::BadHex {
                component: component@,
                value: value@,
            },
        }
    }
}

/// Canonical text of a FID.
pub open spec fn fid_text(f: Fid) -> Seq<char> {
    "["@ + text::hex0x(f.seq as nat) + ":"@ + text::hex0x(f.oid as nat) + ":"@ + text::hex0x(
        f.ver as nat,
    ) + "]"@
}

/// The text without one pair of enclosing brackets, when both are there.
pub open spec fn unbracketed(s: Seq<char>) -> Seq<char> {
    if s.len() >= 2 && s[0] == '[' && s.last() == ']' {
        s.subrange(1, s.len() - 1)
    } else {
        s
    }
}

/// `s` without the two-character prefix `a b`, as often as it stands in front.
pub open spec fn without_prefix(s: Seq<char>, a: char, b: char) -> Seq<char>
    decreases s.len(),
{
    if s.len() >= 2 && s[0] == a && s[1] == b {
        without_prefix(s.skip(2), a, b)
    } else {
        s
    }
}

/// Value of one hexadecimal component, with or without `0x` or `0X`.
pub open spec fn component_value(s: Seq<char>, max: nat) -> Option<nat> {
    text::parse_uint(without_prefix(without_prefix(s, '0', 'x'), '0', 'X'), 16, max)
}

/// The FID that a text denotes, or what is wrong with the text. Components are
/// judged in the order seq, oid, ver.
pub open spec fn parse_fid(s: Seq<char>) -> Result<Fid, FidParseErrorView> {
    let parts = text::split(unbracketed(s), ':');
    if parts.len() != 3 {
        Err(FidParseErrorView::BadShape(s))
    } else {
        match (
            component_value(parts[0], u64::MAX as nat),
            component_value(parts[1], u32::MAX as nat),
            component_value(parts[2], u32::MAX as nat),
        ) {
            (None, _, _) => Err(
                FidParseErrorView::BadHex { component: "seq"@, value: parts[0] },
            ),
            (_, None, _) => Err(
                FidParseErrorView::BadHex { component: "oid"@, value: parts[1] },
            ),
            (_, _, None) => Err(
                FidParseErrorView::BadHex { component: "ver"@, value: parts[2] },
            ),
            (Some(q), Some(o), Some(v)) => Ok(Fid { seq: q as u64, oid: o as u32, ver: v as u32 }),
        }
    }
}

impl Fid {
    /// The all-zero FID, Lustre's "no FID".
    pub fn zero() -> (r: Fid)
        ensures
            r == (Fid { seq: 0, oid: 0, ver: 0 }),
    {
        Fid { seq: 0, oid: 0, ver: 0 }
    }

    /// Construct a FID from its three components.
    pub fn new(seq: u64, oid: u32, ver: u32) -> (r: Fid)
        ensures
            r == (Fid { seq, oid, ver }),
    {
        Fid { seq, oid, ver }
    }

    /// `true` if this FID is the all-zero sentinel.
    pub fn is_zero(&self) -> (r: bool)
        ensures
            r == (*self == (Fid { seq: 0, oid: 0, ver: 0 })),
    {
        self.seq == 0 && self.oid == 0 && self.ver == 0
    }

    /// Canonical text, `[seq:oid:ver]`.
    pub fn to_string(&self) -> (r: String)
        ensures
            r@ == fid_text(*self),
    {
        let mut out = String::new();
        out.append("[");
        text::push_hex0x(&mut out, self.seq);
        out.append(":");
        text::push_hex0x(&mut out, self.oid as u64);
        out.append(":");
        text::push_hex0x(&mut out, self.ver as u64);
        out.append("]");
        proof {
            assert(out@ =~= fid_text(*self));
        }
        out
    }

    /// Parse a FID, with or without brackets and `0x` prefixes.
    pub fn parse(s: &str) -> (r: Result<Fid, FidParseError>)
        ensures
            match parse_fid(s@) {
                Ok(f) => r == Ok::<Fid, FidParseError>(f),
                Err(e) => r matches Err(x) && x@ == e,
            },
    {
        let cs = text::chars_of(s);
        let n: usize = cs.len();
        let parts = if n >= 2 && cs[0] == '[' && cs[n - 1] == ']' {
            let body = vstd::slice::slice_subrange(cs.as_slice(), 1, n - 1);
            text::split_chars(body, ':')
        } else {
            text::split_chars(cs.as_slice(), ':')
        };
        let ghost pieces = text::split(unbracketed(s@), ':');
        assert(text::views(parts@) == pieces);
        assert(parts@.len() == pieces.len());
        if parts.len() != 3 {
            return Err(FidParseError::BadShape(s.to_owned()));
        }
        assert(parts@[0]@ == pieces[0]);
        assert(parts@[1]@ == pieces[1]);
        assert(parts@[2]@ == pieces[2]);
        let seq: u64 = match hex_component(parts[0].as_str(), u64::MAX) {
            Some(v) => v,
            None => {
                return Err(FidParseError::BadHex { component: "seq", value: parts[0].clone() });
            },
        };
        let oid: u64 = match hex_component(parts[1].as_str(), u32::MAX as u64) {
            Some(v) => v,
            None => {
                return Err(FidParseError::BadHex { component: "oid", value: parts[1].clone() });
            },
        };
        let ver: u64 = match hex_component(parts[2].as_str(), u32::MAX as u64) {
            Some(v) => v,
            None => {
                return Err(FidParseError::BadHex { component: "ver", value: parts[2].clone() });
            },
        };
        Ok(Fid { seq, oid: oid as u32, ver: ver as u32 })
    }
}

impl FromStr for Fid {
    type Err = FidParseError;

    fn from_str(s: &str) -> (r: Result<Fid, FidParseError>)
        ensures
            match parse_fid(s@) {
                Ok(f) => r == Ok::<Fid, FidParseError>(f),
                Err(e) => r matches Err(x) && x@ == e,
            },
    {
        Fid::parse(s)
    }
}

/// Index at which `without_prefix` of `cs[from..]` begins.
fn skip_prefix(cs: &[char], from: usize, a: char, b: char) -> (r: usize)
    requires
        from <= cs.len(),
    ensures
        from <= r <= cs.len(),
        cs@.skip(r as int) == without_prefix(cs@.skip(from as int), a, b),
{
    let mut i: usize = from;
    while i < cs.len() && cs.len() - i >= 2 && cs[i] == a && cs[i + 1] == b
        invariant
            from <= i <= cs.len(),
            without_prefix(cs@.skip(i as int), a, b) == without_prefix(
                cs@.skip(from as int),
                a,
                b,
            ),
        decreases cs.len() - i,
    {
        proof {
            assert(cs@.skip(i as int).skip(2) =~= cs@.skip(i as int + 2));
        }
        i = i + 2;
    }
    i
}

/// Parse one hexadecimal component.
fn hex_component(s: &str, max: u64) -> (r: Option<u64>)
    ensures
        match component_value(s@, max as nat) {
            Some(v) => r == Some(v as u64) && v <= max,
            None => r is None,
        },
{
    let cs = text::chars_of(s);
    let lower: usize = skip_prefix(cs.as_slice(), 0, '0', 'x');
    let upper: usize = skip_prefix(cs.as_slice(), lower, '0', 'X');
    let rest = vstd::slice::slice_subrange(cs.as_slice(), upper, cs.len());
    proof {
        assert(cs@.skip(0) =~= s@);
        assert(rest@ =~= cs@.skip(upper as int));
    }
    text::parse_unsigned(rest, 16, max)
}

impl FidParseError {
    /// Human-readable description.
    pub fn to_string(&self) -> (r: String)
        ensures
            r@ == self.message(),
    {
        let mut out = String::new();
        match self {
            FidParseError::BadShape(s) => {
                out.append("FID must be formatted as [seq:oid:ver], got ");
                out.append(text::debug_string(s.as_str()).as_str());
            },
            FidParseError::BadHex { component, value } => {
                out.append("FID component ");
                out.append(component);
                out.append(" is not valid hex: ");
                out.append(text::debug_string(value.as_str()).as_str());
            },
        }
        proof {
            assert(out@ =~= self.message());
        }
        out
    }

    /// Text of the error.
    pub open spec fn message(&self) -> Seq<char> {
        match *self {
            FidParseError::BadShape(s) => "FID must be formatted as [seq:oid:ver], got "@
                + text::debug_text(s@),
            FidParseError::BadHex { component, value } => "FID component "@ + component@
                + " is not valid hex: "@ + text::debug_text(value@),
        }
    }
}

/// One written component reads back as its value.
proof fn lemma_component_round_trip(n: nat, max: nat)
    requires
        n <= max,
    ensures
        component_value(text::hex0x(n), max) == Some(n),
        component_value(text::numeral(n, 16), max) == Some(n),
        forall|i: int| 0 <= i < text::hex0x(n).len() ==> #[trigger] text::hex0x(n)[i] != ':',
        forall|i: int|
            0 <= i < text::numeral(n, 16).len() ==> #[trigger] text::numeral(n, 16)[i] != ':',
{
    reveal_strlit("0x");
    let d = text::numeral(n, 16);
    let s = text::hex0x(n);
    text::lemma_numeral_digits(n, 16);
    text::lemma_parse_numeral(n, 16, max);
    assert(s[0] == '0' && s[1] == 'x');
    assert(s.skip(2) =~= d);
    if d.len() >= 2 {
        assert(d[1] != 'x' && d[1] != 'X');
    }
    assert(without_prefix(d, '0', 'x') == d);
    assert(without_prefix(s, '0', 'x') == d);
    assert(without_prefix(d, '0', 'X') == d);
    assert forall|i: int| 0 <= i < s.len() implies #[trigger] s[i] != ':' by {
        if i >= 2 {
            assert(s[i] == d[i - 2]);
        }
    }
}

/// Parsing the canonical text of a FID gives back the FID, for every FID.
pub proof fn lemma_fid_text_round_trip(f: Fid)
    ensures
        parse_fid(fid_text(f)) == Ok::<Fid, FidParseErrorView>(f),
{
    reveal_strlit("[");
    reveal_strlit(":");
    reveal_strlit("]");
    let a = text::hex0x(f.seq as nat);
    let b = text::hex0x(f.oid as nat);
    let c = text::hex0x(f.ver as nat);
    let s = fid_text(f);
    lemma_component_round_trip(f.seq as nat, u64::MAX as nat);
    lemma_component_round_trip(f.oid as nat, u32::MAX as nat);
    lemma_component_round_trip(f.ver as nat, u32::MAX as nat);
    let body = a + seq![':'] + (b + seq![':'] + c);
    assert(":"@ =~= seq![':']);
    assert(s =~= seq!['['] + body + seq![']']);
    assert(s.last() == ']');
    assert(unbracketed(s) =~= body);
    text::lemma_split_cons(a, ':', b + seq![':'] + c);
    text::lemma_split_cons(b, ':', c);
    text::lemma_split_one(c, ':');
    assert(text::split(body, ':') =~= seq![a, b, c]);
}

/// The text of a FID with its components in bare hexadecimal.
pub open spec fn fid_text_bare(f: Fid) -> Seq<char> {
    "["@ + text::numeral(f.seq as nat, 16) + ":"@ + text::numeral(f.oid as nat, 16) + ":"@
        + text::numeral(f.ver as nat, 16) + "]"@
}

/// The `0x` prefixes are optional: a FID's text without them denotes the same FID.
pub proof fn lemma_fid_prefixes_optional(f: Fid)
    ensures
        parse_fid(fid_text_bare(f)) == Ok::<Fid, FidParseErrorView>(f),
{
    reveal_strlit("[");
    reveal_strlit(":");
    reveal_strlit("]");
    let a = text::numeral(f.seq as nat, 16);
    let b = text::numeral(f.oid as nat, 16);
    let c = text::numeral(f.ver as nat, 16);
    let s = fid_text_bare(f);
    lemma_component_round_trip(f.seq as nat, u64::MAX as nat);
    lemma_component_round_trip(f.oid as nat, u32::MAX as nat);
    lemma_component_round_trip(f.ver as nat, u32::MAX as nat);
    let body = a + seq![':'] + (b + seq![':'] + c);
    assert(":"@ =~= seq![':']);
    assert(s =~= seq!['['] + body + seq![']']);
    assert(s.last() == ']');
    assert(unbracketed(s) =~= body);
    text::lemma_split_cons(a, ':', b + seq![':'] + c);
    text::lemma_split_cons(b, ':', c);
    text::lemma_split_one(c, ':');
    assert(text::split(body, ':') =~= seq![a, b, c]);
}

/// Distinct FIDs have distinct texts.
pub proof fn lemma_fid_text_injective(f: Fid, g: Fid)
    requires
        fid_text(f) == fid_text(g),
    ensures
        f == g,
{
    lemma_fid_text_round_trip(f);
    lemma_fid_text_round_trip(g);
}

/// The brackets are optional: a FID's text without them denotes the same FID.
pub proof fn lemma_fid_brackets_optional(f: Fid)
    ensures
        parse_fid(unbracketed(fid_text(f))) == Ok::<Fid, FidParseErrorView>(f),
{
    reveal_strlit("[");
    reveal_strlit("]");
    reveal_strlit("0x");
    lemma_fid_text_round_trip(f);
    let s = fid_text(f);
    assert(s[0] == '[' && s.last() == ']');
    let body = unbracketed(s);
    assert(body[0] == '0') by {
        assert(body[0] == s[1]);
        assert(s[1] == text::hex0x(f.seq as nat)[0]);
    }
    assert(unbracketed(body) == body);
}

} // verus!
