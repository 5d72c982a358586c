//! Texts: numbers as they are written and read, lists, and file identifiers.

use crate::model::fid;
use crate::model::fid::{Fid, FidParseError, FidParseErrorView};
use crate::text;
use crate::text::{parse_unsigned, push_byte_hex, push_dec, push_dec_int, push_hex0x, split_chars};
use vstd::prelude::*;

verus! {

// ---------------------------------------------------------------------------
// Writing numbers
// ---------------------------------------------------------------------------

/// `c` is how the digit `d` is written.
pub open spec fn written(d: int, c: char) -> bool {
    0 <= d < 16 && c == "0123456789abcdef"@[d]
}

/// `c` is read as the digit `d`, in either case.
pub open spec fn read(d: int, c: char) -> bool {
    0 <= d < 16 && (c == "0123456789abcdef"@[d] || c == "0123456789ABCDEF"@[d])
}

/// The digits by their characters.
pub(crate) proof fn lemma_digits(d: int, c: char)
    ensures
        written(d, c) <==> 0 <= d < 16 && c == text::digit_char(d),
        0 <= d < 16 ==> (read(d, c) <==> text::digit_value(c, 16) == Some(d)),
        read(d, c) ==> forall|radix: int|
            1 <= radix <= 16 ==> #[trigger] text::digit_value(c, radix) == (if d < radix {
                Some(d)
            } else {
                None
            }),
{
    reveal_strlit("0123456789abcdef");
    reveal_strlit("0123456789ABCDEF");
    let lower = "0123456789abcdef"@;
    let upper = "0123456789ABCDEF"@;
    assert(lower[0] == '0' && lower[1] == '1' && lower[2] == '2' && lower[3] == '3' && lower[4]
        == '4' && lower[5] == '5' && lower[6] == '6' && lower[7] == '7' && lower[8] == '8'
        && lower[9] == '9' && lower[10] == 'a' && lower[11] == 'b' && lower[12] == 'c' && lower[13]
        == 'd' && lower[14] == 'e' && lower[15] == 'f');
    assert(upper[0] == '0' && upper[1] == '1' && upper[2] == '2' && upper[3] == '3' && upper[4]
        == '4' && upper[5] == '5' && upper[6] == '6' && upper[7] == '7' && upper[8] == '8'
        && upper[9] == '9' && upper[10] == 'A' && upper[11] == 'B' && upper[12] == 'C' && upper[13]
        == 'D' && upper[14] == 'E' && upper[15] == 'F');
}

/// A number below ten is its digit, and ten times a number and a digit is the number's
/// text with the digit behind it.
pub proof fn lemma_push_dec(a: &mut String, n: u128, b: &mut String, m: u128, d: int, c: char)
    requires
        call_ensures(push_dec, (a, n), ()),
        call_ensures(push_dec, (b, m), ()),
        written(d, c),
        d < 10,
    ensures
        n == d ==> final(a)@ == old(a)@.push(c),
        0 < n && m == 10 * n + d ==> exists|t: Seq<char>|
            final(a)@ == #[trigger] (old(a)@ + t) && final(b)@ == old(b)@ + t.push(c),
{
    lemma_digits(d, c);
    if n == d {
        assert(old(a)@ + seq![c] =~= old(a)@.push(c));
    }
    if 0 < n && m == 10 * n + d {
        let t = text::dec(n as nat);
        assert(m as nat / 10 == n as nat);
        assert(m as nat % 10 == d);
        assert(final(b)@ == old(b)@ + t.push(c));
        assert(final(a)@ == old(a)@ + t);
    }
}

/// A number below sixteen is `0x` and its digit, and sixteen times a number and a digit
/// is the number's text with the digit behind it.
pub proof fn lemma_push_hex0x(a: &mut String, n: u64, b: &mut String, m: u64, d: int, c: char)
    requires
        call_ensures(push_hex0x, (a, n), ()),
        call_ensures(push_hex0x, (b, m), ()),
        written(d, c),
    ensures
        n == d ==> final(a)@ == old(a)@ + seq!['0', 'x', c],
        0 < n && m == 16 * n + d ==> exists|t: Seq<char>|
            final(a)@ == #[trigger] (old(a)@ + t) && final(b)@ == old(b)@ + t.push(c),
{
    lemma_digits(d, c);
    reveal_strlit("0x");
    assert("0x"@ =~= seq!['0', 'x']);
    if n == d {
        assert("0x"@ + seq![c] =~= seq!['0', 'x', c]);
    }
    if 0 < n && m == 16 * n + d {
        let t = text::hex0x(n as nat);
        assert(m as nat / 16 == n as nat);
        assert(m as nat % 16 == d);
        assert(text::hex0x(m as nat) =~= t.push(c));
        assert(final(a)@ == old(a)@ + t);
    }
}

/// A number that is not negative is written as any, and a negative one is the number
/// without its sign behind a minus.
pub proof fn lemma_push_dec_int(a: &mut String, i: i64, b: &mut String, n: u128)
    requires
        call_ensures(push_dec_int, (a, i), ()),
        call_ensures(push_dec, (b, n), ()),
        n == i || n == -i,
    ensures
        exists|t: Seq<char>|
            final(b)@ == #[trigger] (old(b)@ + t) && final(a)@ == if i < 0 {
                old(a)@ + (seq!['-'] + t)
            } else {
                old(a)@ + t
            },
{
    reveal_strlit("-");
    assert("-"@ =~= seq!['-']);
    let t = text::dec(n as nat);
    assert(final(b)@ == old(b)@ + t);
}

/// A byte is written as its two digits, the higher first.
pub proof fn lemma_push_byte_hex(out: &mut String, b: u8, hi: int, lo: int, x: char, y: char)
    requires
        call_ensures(push_byte_hex, (out, b), ()),
        b == 16 * hi + lo,
        written(hi, x),
        written(lo, y),
    ensures
        final(out)@ == old(out)@ + seq![x, y],
{
    lemma_digits(hi, x);
    lemma_digits(lo, y);
    assert(b as int / 16 == hi && b as int % 16 == lo);
}

// ---------------------------------------------------------------------------
// Reading numbers
// ---------------------------------------------------------------------------

/// A single digit is its value, if the radix has it and it is not too large; any other
/// single character is no number, and neither is nothing at all.
pub proof fn lemma_read_digit(s: &[char], radix: u64, max: u64, r: Option<u64>, d: int)
    requires
        call_ensures(parse_unsigned, (s, radix, max), r),
        2 <= radix <= 16,
    ensures
        s@.len() == 0 ==> r is None,
        s@.len() == 1 && read(d, s@[0]) ==> r == (if d < radix && d <= max {
            Some(d as u64)
        } else {
            None
        }),
        s@.len() == 1 && (forall|e: int| !read(e, s@[0])) ==> r is None,
{
    if s@.len() == 1 {
        let c = s@[0];
        lemma_digits(d, c);
        assert(s@.drop_last() =~= Seq::<char>::empty());
        assert(text::digits_value(s@.drop_last(), radix as nat) == Some(0nat));
        assert(!read(d, '+')) by {
            lemma_digits(d, '+');
        }
        if read(d, c) {
            assert(text::digit_value(c, radix as int) == (if d < radix {
                Some(d)
            } else {
                None
            }));
            assert(s@.last() == c);
            assert(0 * (radix as nat) == 0);
            assert(text::digits_value(s@, radix as nat) == (if d < radix {
                Some(d as nat)
            } else {
                None
            }));
        }
        if forall|e: int| !read(e, c) {
            if let Some(e) = text::digit_value(c, radix as int) {
                lemma_digits(e, c);
                assert(read(e, c));
            }
        }
    }
}

/// One more digit behind a number makes it the radix times the number and the digit,
/// unless that is too large; with anything else behind it, it is no number.
pub proof fn lemma_read_more(
    s: &[char],
    t: &[char],
    radix: u64,
    max: u64,
    r: Option<u64>,
    q: Option<u64>,
    d: int,
)
    requires
        call_ensures(parse_unsigned, (s, radix, u64::MAX), r),
        call_ensures(parse_unsigned, (t, radix, max), q),
        2 <= radix <= 16,
        t@.len() == s@.len() + 1,
        t@.drop_last() == s@,
        r is Some,
    ensures
        read(d, t@.last()) ==> q == (if d < radix && r->0 * radix + d <= max {
            Some((r->0 * radix + d) as u64)
        } else {
            None
        }),
        (forall|e: int| !read(e, t@.last())) ==> q is None,
{
    let c = t@.last();
    lemma_digits(d, c);
    let body = if s@.len() > 0 && s@[0] == '+' {
        s@.drop_first()
    } else {
        s@
    };
    let more = if t@.len() > 0 && t@[0] == '+' {
        t@.drop_first()
    } else {
        t@
    };
    assert(s@.len() > 0);
    assert(t@[0] == s@[0]);
    assert(more.drop_last() =~= body);
    assert(more.last() == c);
    let v = text::digits_value(body, radix as nat);
    assert(v == Some(r->0 as nat));
    if forall|e: int| !read(e, c) {
        if let Some(e) = text::digit_value(c, radix as int) {
            lemma_digits(e, c);
            assert(read(e, c));
        }
    }
    if read(d, c) && d < radix {
        assert((r->0 as nat) * (radix as nat) + d >= 0) by (nonlinear_arith)
            requires
                d >= 0,
                radix >= 2,
                r->0 >= 0,
        ;
        assert((r->0 as nat) * (radix as nat) == r->0 * radix) by (nonlinear_arith);
    }
}

/// What is no number, or too large a one, does not become one by more behind it.
pub proof fn lemma_read_prefix(
    s: &[char],
    t: &[char],
    radix: u64,
    max: u64,
    r: Option<u64>,
    q: Option<u64>,
)
    requires
        call_ensures(parse_unsigned, (s, radix, max), r),
        call_ensures(parse_unsigned, (t, radix, max), q),
        2 <= radix <= 16,
        t@.len() == s@.len() + 1,
        t@.drop_last() == s@,
        s@.len() > 0,
        s@ != seq!['+'],
        r is None,
    ensures
        q is None,
{
    let body = if s@[0] == '+' {
        s@.drop_first()
    } else {
        s@
    };
    let more = if t@[0] == '+' {
        t@.drop_first()
    } else {
        t@
    };
    assert(t@[0] == s@[0]);
    assert(more.drop_last() =~= body);
    if s@[0] == '+' && s@.len() == 1 {
        assert(s@ =~= seq!['+']);
    }
    if let (Some(v), Some(d)) = (
        text::digits_value(body, radix as nat),
        text::digit_value(more.last(), radix as int),
    ) {
        assert(v * (radix as nat) + d >= v) by (nonlinear_arith)
            requires
                radix >= 2,
                d >= 0,
                v >= 0,
        ;
    }
}

/// One plus in front changes nothing; a second one is no number.
pub proof fn lemma_read_plus(
    s: &[char],
    t: &[char],
    radix: u64,
    max: u64,
    r: Option<u64>,
    q: Option<u64>,
)
    requires
        call_ensures(parse_unsigned, (s, radix, max), r),
        call_ensures(parse_unsigned, (t, radix, max), q),
        2 <= radix <= 16,
        t@ == seq!['+'] + s@,
    ensures
        s@.len() == 0 || s@[0] != '+' ==> q == r,
        s@.len() > 0 && s@[0] == '+' ==> q is None,
{
    assert(t@.drop_first() =~= s@);
    if s@.len() > 0 && s@[0] == '+' {
        lemma_not_a_digit(s@, radix as nat, 0);
    }
}

/// A character that is no digit spoils the number.
proof fn lemma_not_a_digit(s: Seq<char>, radix: nat, i: int)
    requires
        0 <= i < s.len(),
        s[i] == '+',
        2 <= radix <= 16,
    ensures
        text::digits_value(s, radix) is None,
    decreases s.len(),
{
    if i < s.len() - 1 {
        lemma_not_a_digit(s.drop_last(), radix, i);
    }
}

// ---------------------------------------------------------------------------
// Splitting
// ---------------------------------------------------------------------------

/// The pieces with the separator between them.
pub open spec fn joined(pieces: Seq<Seq<char>>, sep: char) -> Seq<char>
    decreases pieces.len(),
{
    if pieces.len() == 0 {
        Seq::empty()
    } else if pieces.len() == 1 {
        pieces[0]
    } else {
        pieces[0] + seq![sep] + joined(pieces.drop_first(), sep)
    }
}

/// Where a character is found first.
proof fn lemma_found(s: Seq<char>, sep: char, from: int)
    requires
        0 <= from <= s.len(),
    ensures
        from <= text::find_char(s, sep, from) <= s.len(),
        forall|i: int| from <= i < text::find_char(s, sep, from) ==> #[trigger] s[i] != sep,
        text::find_char(s, sep, from) < s.len() ==> s[text::find_char(s, sep, from)] == sep,
    decreases s.len() - from,
{
    if from < s.len() && s[from] != sep {
        lemma_found(s, sep, from + 1);
    }
}

/// The pieces of a split put together are the text, and none holds the separator.
pub(crate) proof fn lemma_split(s: Seq<char>, sep: char)
    ensures
        text::split(s, sep).len() >= 1,
        joined(text::split(s, sep), sep) == s,
        forall|i: int, j: int|
            0 <= i < text::split(s, sep).len() && 0 <= j < text::split(s, sep)[i].len()
                ==> #[trigger] text::split(s, sep)[i][j] != sep,
    decreases s.len(),
{
    lemma_found(s, sep, 0);
    let i = text::find_char(s, sep, 0);
    if i < s.len() {
        let rest = text::split(s.skip(i + 1), sep);
        lemma_split(s.skip(i + 1), sep);
        let all = text::split(s, sep);
        assert(all.drop_first() =~= rest);
        assert(s =~= s.take(i) + seq![sep] + s.skip(i + 1));
        assert forall|k: int, j: int| 0 <= k < all.len() && 0 <= j < all[k].len() implies
            #[trigger] all[k][j] != sep by {
            if k > 0 {
                assert(all[k] == rest[k - 1]);
            }
        }
    }
}

/// Splitting loses nothing but the separators: the pieces hold none, and put together
/// with one between each two they are the text.
pub proof fn lemma_split_call(s: &[char], sep: char, r: Vec<String>)
    requires
        call_ensures(split_chars, (s, sep), r),
    ensures
        r@.len() >= 1,
        joined(text::views(r@), sep) == s@,
        forall|i: int, j: int|
            0 <= i < r@.len() && 0 <= j < r@[i]@.len() ==> #[trigger] r@[i]@[j] != sep,
{
    lemma_split(s@, sep);
    let v = text::views(r@);
    assert(v.len() == r@.len());
    assert forall|i: int, j: int| 0 <= i < r@.len() && 0 <= j < r@[i]@.len() implies
        #[trigger] r@[i]@[j] != sep by {
        assert(v[i] == r@[i]@);
        assert(v[i][j] != sep);
    }
}

// ---------------------------------------------------------------------------
// File identifiers
// ---------------------------------------------------------------------------

/// `p` is the hexadecimal `a`, with or without a prefix.
pub open spec fn prefixed(p: Seq<char>, a: Seq<char>) -> bool {
    &&& !(a.len() >= 2 && a[0] == '0' && (a[1] == 'x' || a[1] == 'X'))
    &&& p == a || p == seq!['0', 'x'] + a || p == seq!['0', 'X'] + a
}

/// A text with no separator in it.
pub open spec fn solid(p: Seq<char>) -> bool {
    forall|i: int| 0 <= i < p.len() ==> #[trigger] p[i] != ':'
}

/// The prefix of a component is no part of its value.
proof fn lemma_component(p: Seq<char>, a: Seq<char>, max: nat)
    requires
        prefixed(p, a),
    ensures
        fid::component_value(p, max) == text::parse_uint(a, 16, max),
{
    reveal_with_fuel(fid::without_prefix, 2);
    if p == seq!['0', 'x'] + a {
        assert(p.skip(2) =~= a);
    } else if p == seq!['0', 'X'] + a {
        assert(p.skip(2) =~= a);
    }
}

/// Three texts with a colon between each two are three pieces.
proof fn lemma_three(p: Seq<char>, q: Seq<char>, v: Seq<char>)
    requires
        solid(p),
        solid(q),
        solid(v),
    ensures
        text::split(p + seq![':'] + q + seq![':'] + v, ':') == seq![p, q, v],
{
    let rest = q + seq![':'] + v;
    assert(p + seq![':'] + q + seq![':'] + v =~= p + seq![':'] + rest);
    text::lemma_split_cons(p, ':', rest);
    text::lemma_split_cons(q, ':', v);
    text::lemma_split_one(v, ':');
    assert(seq![p] + (seq![q] + seq![v]) =~= seq![p, q, v]);
}

/// The parts of the identifier in the text, between brackets or not.
pub open spec fn made_of(s: Seq<char>, p: Seq<char>, q: Seq<char>, v: Seq<char>) -> bool {
    let body = p + seq![':'] + q + seq![':'] + v;
    ||| s == seq!['['] + body + seq![']']
    ||| s == body && (body[0] != '[' || body.last() != ']')
}

/// What is between the brackets.
proof fn lemma_unbracketed(s: Seq<char>, p: Seq<char>, q: Seq<char>, v: Seq<char>)
    requires
        made_of(s, p, q, v),
    ensures
        fid::unbracketed(s) == p + seq![':'] + q + seq![':'] + v,
{
    let body = p + seq![':'] + q + seq![':'] + v;
    if s == seq!['['] + body + seq![']'] {
        assert(s[0] == '[' && s.last() == ']');
        assert(s.subrange(1, s.len() - 1) =~= body);
    }
}

/// A file identifier is three hexadecimal numbers, the first of 64 and the others of 32
/// bits, each with or without a prefix and all with or without brackets. It is read as
/// the numbers that they are, and the first that is none is named with its text.
pub proof fn lemma_fid_parse(
    s: &str,
    r: Result<Fid, FidParseError>,
    p: Seq<char>,
    q: Seq<char>,
    v: Seq<char>,
    a: &[char],
    b: &[char],
    c: &[char],
    x: Option<u64>,
    y: Option<u64>,
    z: Option<u64>,
)
    requires
        call_ensures(Fid::parse, (s,), r),
        made_of(s@, p, q, v),
        solid(p),
        solid(q),
        solid(v),
        prefixed(p, a@),
        prefixed(q, b@),
        prefixed(v, c@),
        call_ensures(parse_unsigned, (a, 16, u64::MAX), x),
        call_ensures(parse_unsigned, (b, 16, u32::MAX as u64), y),
        call_ensures(parse_unsigned, (c, 16, u32::MAX as u64), z),
    ensures
        r is Ok <==> x is Some && y is Some && z is Some,
        r is Ok ==> r->Ok_0.seq == x->0 && r->Ok_0.oid == y->0 && r->Ok_0.ver == z->0,
        x is None ==> r->Err_0@ == (FidParseErrorView::BadHex { component: "seq"@, value: p }),
        x is Some && y is None ==> r->Err_0@ == (FidParseErrorView::BadHex {
            component: "oid"@,
            value: q,
        }),
        x is Some && y is Some && z is None ==> r->Err_0@ == (FidParseErrorView::BadHex {
            component: "ver"@,
            value: v,
        }),
{
    lemma_unbracketed(s@, p, q, v);
    lemma_three(p, q, v);
    lemma_component(p, a@, u64::MAX as nat);
    lemma_component(q, b@, u32::MAX as nat);
    lemma_component(v, c@, u32::MAX as nat);
}

/// A text without exactly two colons is no file identifier, and the answer is the text.
pub proof fn lemma_fid_shape(
    s: &str,
    body: &[char],
    pieces: Vec<String>,
    r: Result<Fid, FidParseError>,
)
    requires
        call_ensures(Fid::parse, (s,), r),
        call_ensures(split_chars, (body, ':'), pieces),
        s@ == seq!['['] + body@ + seq![']'] || s@ == body@ && (s@.len() < 2 || s@[0] != '['
            || s@.last() != ']'),
        pieces@.len() != 3,
    ensures
        r is Err,
        r->Err_0@ == FidParseErrorView::BadShape(s@),
{
    if s@ == seq!['['] + body@ + seq![']'] {
        assert(s@[0] == '[' && s@.last() == ']');
        assert(s@.subrange(1, s@.len() - 1) =~= body@);
    }
    assert(fid::unbracketed(s@) == body@);
    assert(text::views(pieces@).len() == pieces@.len());
}

/// The identifier that stands for none is the one of three zeros, and no other is.
pub proof fn lemma_fid_zero(seq: u64, oid: u32, ver: u32, f: Fid, zero: Fid, b: bool)
    requires
        call_ensures(Fid::new, (seq, oid, ver), f),
        call_ensures(Fid::zero, (), zero),
        call_ensures(Fid::is_zero, (&f,), b),
    ensures
        f.seq == seq && f.oid == oid && f.ver == ver,
        zero.seq == 0 && zero.oid == 0 && zero.ver == 0,
        b <==> seq == 0 && oid == 0 && ver == 0,
{
}

/// The message of a failed reading quotes the text, or the component and its text.
pub proof fn lemma_fid_error_message(e: &FidParseError, r: String)
    requires
        call_ensures(FidParseError::to_string, (e,), r),
    ensures
        match e@ {
            FidParseErrorView::BadShape(t) => r@ == "FID must be formatted as [seq:oid:ver], got "@
                + text::debug_text(t),
            FidParseErrorView::BadHex { component, value } => r@ == "FID component "@ + component
                + " is not valid hex: "@ + text::debug_text(value),
        },
{
}

} // verus!
