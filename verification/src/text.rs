//! Text building blocks: decimal and hexadecimal rendering, unsigned parsing,
//! and the few string operations the rest of the crate is written with.

use vstd::prelude::*;

verus! {

/// `String::push` appends one `char` at the end.
pub assume_specification[ String::push ](s: &mut String, c: char)
    ensures
        final(s)@ == old(s)@.push(c),
;

// ---------------------------------------------------------------------------
// Digits
// ---------------------------------------------------------------------------

/// Lowercase digit character of `d`, for `0 <= d < 16`.
pub open spec fn digit_char(d: int) -> char {
    if d < 10 {
        (48 + d) as char
    } else {
        (87 + d) as char
    }
}

/// Value of `c` as a digit in `radix`, either letter case.
pub open spec fn digit_value(c: char, radix: int) -> Option<int> {
    let v = if '0' <= c <= '9' {
        c as int - 48
    } else if 'a' <= c <= 'f' {
        c as int - 87
    } else if 'A' <= c <= 'F' {
        c as int - 55
    } else {
        99
    };
    if v < radix {
        Some(v)
    } else {
        None
    }
}

/// Positional numeral of `n`, most significant digit first, no leading zeros.
pub open spec fn numeral(n: nat, radix: nat) -> Seq<char>
    decreases n,
{
    if radix < 2 || n < radix {
        seq![digit_char(n as int)]
    } else {
        proof {
            assert(n / radix < n) by (nonlinear_arith)
                requires
                    n >= radix,
                    radix >= 2,
            ;
        }
        numeral(n / radix, radix).push(digit_char((n % radix) as int))
    }
}

/// Decimal numeral.
pub open spec fn dec(n: nat) -> Seq<char> {
    numeral(n, 10)
}

/// Decimal numeral of a signed number.
pub open spec fn dec_int(i: int) -> Seq<char> {
    if i < 0 {
        "-"@ + dec((-i) as nat)
    } else {
        dec(i as nat)
    }
}

/// Hexadecimal numeral with the `0x` prefix.
pub open spec fn hex0x(n: nat) -> Seq<char> {
    "0x"@ + numeral(n, 16)
}

/// Number denoted by a run of digits; `None` when some character is not a digit.
pub open spec fn digits_value(s: Seq<char>, radix: nat) -> Option<nat>
    decreases s.len(),
{
    if s.len() == 0 {
        Some(0nat)
    } else {
        match (digits_value(s.drop_last(), radix), digit_value(s.last(), radix as int)) {
            (Some(v), Some(d)) => Some((v * radix + d) as nat),
            _ => None,
        }
    }
}

/// Unsigned integer grammar: an optional `+`, then at least one digit, the value
/// at most `max`.
pub open spec fn parse_uint(s: Seq<char>, radix: nat, max: nat) -> Option<nat> {
    let body = if s.len() > 0 && s[0] == '+' {
        s.drop_first()
    } else {
        s
    };
    if body.len() == 0 {
        None
    } else {
        match digits_value(body, radix) {
            Some(v) => if v <= max {
                Some(v)
            } else {
                None
            },
            None => None,
        }
    }
}

/// Every character of a numeral is a digit of its radix.
pub proof fn lemma_numeral_digits(n: nat, radix: nat)
    requires
        2 <= radix <= 16,
    ensures
        numeral(n, radix).len() > 0,
        forall|i: int|
            0 <= i < numeral(n, radix).len() ==> digit_value(#[trigger] numeral(n, radix)[i], radix as int) is Some,
        forall|i: int|
            0 <= i < numeral(n, radix).len() ==> ('0' <= #[trigger] numeral(n, radix)[i] <= '9' || 'a'
                <= numeral(n, radix)[i] <= 'f'),
    decreases n,
{
    if n >= radix {
        assert(n / radix < n) by (nonlinear_arith)
            requires
                n >= radix,
                radix >= 2,
        ;
        lemma_numeral_digits(n / radix, radix);
        assert(0 <= n % radix < radix) by (nonlinear_arith)
            requires
                radix >= 2,
        ;
    }
}

/// Reading a numeral gives back the number it was written from.
pub proof fn lemma_numeral_value(n: nat, radix: nat)
    requires
        2 <= radix <= 16,
    ensures
        digits_value(numeral(n, radix), radix) == Some(n),
    decreases n,
{
    if n < radix {
        let s = seq![digit_char(n as int)];
        assert(s.drop_last() =~= Seq::<char>::empty());
        assert(digits_value(s.drop_last(), radix) == Some(0nat));
        assert(0 * radix == 0) by (nonlinear_arith);
    } else {
        assert(n / radix < n) by (nonlinear_arith)
            requires
                n >= radix,
                radix >= 2,
        ;
        lemma_numeral_value(n / radix, radix);
        let p = numeral(n / radix, radix);
        let s = p.push(digit_char((n % radix) as int));
        assert(s.drop_last() =~= p);
        assert(0 <= n % radix < radix && (n / radix) * radix + n % radix == n) by (nonlinear_arith)
            requires
                radix >= 2,
        ;
    }
}

/// Parsing a numeral gives back the number, when the number fits.
pub proof fn lemma_parse_numeral(n: nat, radix: nat, max: nat)
    requires
        2 <= radix <= 16,
        n <= max,
    ensures
        parse_uint(numeral(n, radix), radix, max) == Some(n),
{
    lemma_numeral_digits(n, radix);
    lemma_numeral_value(n, radix);
    assert(numeral(n, radix)[0] != '+');
}

/// A longer run of digits denotes at least as large a number.
proof fn lemma_digits_value_prefix(s: Seq<char>, k: int, radix: nat)
    requires
        0 <= k <= s.len(),
        radix >= 1,
    ensures
        digits_value(s, radix) matches Some(v) ==> (digits_value(s.take(k), radix) matches Some(u)
            && u <= v),
    decreases s.len() - k,
{
    if k == s.len() {
        assert(s.take(k) =~= s);
    } else {
        lemma_digits_value_prefix(s, k + 1, radix);
        let t = s.take(k + 1);
        assert(t.drop_last() =~= s.take(k));
        if digits_value(s, radix) is Some {
            let u = digits_value(s.take(k), radix)->0;
            assert(u <= u * radix) by (nonlinear_arith)
                requires
                    radix >= 1,
            ;
        }
    }
}

// ---------------------------------------------------------------------------
// Executable rendering
// ---------------------------------------------------------------------------

/// Digit character of `d`.
fn digit(d: u8) -> (c: char)
    requires
        d < 16,
    ensures
        c == digit_char(d as int),
{
    if d < 10 {
        (48 + d) as char
    } else {
        (87 + d) as char
    }
}

/// Append the numeral of `n` in `radix`.
fn push_numeral(out: &mut String, n: u128, radix: u128)
    requires
        2 <= radix <= 16,
    ensures
        final(out)@ == old(out)@ + numeral(n as nat, radix as nat),
    decreases n,
{
    if n >= radix {
        proof {
            assert(n / radix < n) by (nonlinear_arith)
                requires
                    n >= radix,
                    radix >= 2,
            ;
        }
        push_numeral(out, n / radix, radix);
    }
    proof {
        assert(0 <= n % radix < radix) by (nonlinear_arith)
            requires
                radix >= 2,
        ;
        if n < radix {
            assert(n % radix == n) by (nonlinear_arith)
                requires
                    n < radix,
            ;
        }
    }
    let d: u8 = (n % radix) as u8;
    out.push(digit(d));
    proof {
        assert(final(out)@ =~= old(out)@ + numeral(n as nat, radix as nat));
    }
}

/// Append the decimal numeral of `n`.
pub fn push_dec(out: &mut String, n: u128)
    ensures
        final(out)@ == old(out)@ + dec(n as nat),
{
    push_numeral(out, n, 10);
}

/// Append the decimal numeral of a signed `i`.
pub fn push_dec_int(out: &mut String, i: i64)
    ensures
        final(out)@ == old(out)@ + dec_int(i as int),
{
    if i < 0 {
        out.append("-");
        let m: u128 = (-(i as i128)) as u128;
        push_numeral(out, m, 10);
        proof {
            assert(final(out)@ =~= old(out)@ + dec_int(i as int));
        }
    } else {
        push_numeral(out, i as u128, 10);
    }
}

/// Append the `0x`-prefixed hexadecimal numeral of `n`.
pub fn push_hex0x(out: &mut String, n: u64)
    ensures
        final(out)@ == old(out)@ + hex0x(n as nat),
{
    out.append("0x");
    push_numeral(out, n as u128, 16);
    proof {
        assert(final(out)@ =~= old(out)@ + hex0x(n as nat));
    }
}

/// Two lowercase hexadecimal digits of a byte.
pub open spec fn byte_hex(b: u8) -> Seq<char> {
    seq![digit_char(b as int / 16), digit_char(b as int % 16)]
}

/// Append the two hexadecimal digits of `b`.
pub fn push_byte_hex(out: &mut String, b: u8)
    ensures
        final(out)@ == old(out)@ + byte_hex(b),
{
    out.push(digit(b / 16));
    out.push(digit(b % 16));
    proof {
        assert(final(out)@ =~= old(out)@ + byte_hex(b));
    }
}

// ---------------------------------------------------------------------------
// Executable parsing
// ---------------------------------------------------------------------------

/// Value of a digit character.
fn value_of(c: char, radix: u64) -> (r: Option<u64>)
    ensures
        match digit_value(c, radix as int) {
            Some(v) => r == Some(v as u64) && v < radix && v >= 0,
            None => r is None,
        },
{
    let v: u64 = if '0' <= c && c <= '9' {
        c as u64 - 48
    } else if 'a' <= c && c <= 'f' {
        c as u64 - 87
    } else if 'A' <= c && c <= 'F' {
        c as u64 - 55
    } else {
        99
    };
    if v < radix {
        Some(v)
    } else {
        None
    }
}

/// Parse an unsigned integer of at most `max`.
pub fn parse_unsigned(s: &[char], radix: u64, max: u64) -> (r: Option<u64>)
    requires
        2 <= radix <= 16,
    ensures
        match parse_uint(s@, radix as nat, max as nat) {
            Some(v) => r == Some(v as u64) && v <= max,
            None => r is None,
        },
{
    let mut i: usize = 0;
    if s.len() > 0 && s[0] == '+' {
        i = 1;
    }
    if i == s.len() {
        return None;
    }
    let start: usize = i;
    let ghost body = s@.skip(start as int);
    proof {
        if start == 0 {
            assert(body =~= s@);
        } else {
            assert(body =~= s@.drop_first());
        }
        assert(body.take(0) =~= Seq::<char>::empty());
    }
    let mut acc: u64 = 0;
    while i < s.len()
        invariant
            2 <= radix <= 16,
            start <= i <= s.len(),
            start <= 1,
            start < s.len(),
            body == s@.skip(start as int),
            body == (if s@.len() > 0 && s@[0] == '+' {
                s@.drop_first()
            } else {
                s@
            }),
            digits_value(body.take(i - start), radix as nat) == Some(acc as nat),
            acc <= max,
        decreases s.len() - i,
    {
        let ghost k = i - start;
        proof {
            assert(body.take(k + 1).drop_last() =~= body.take(k));
            assert(body.take(k + 1).last() == s@[i as int]);
            lemma_digits_value_prefix(body, k + 1, radix as nat);
        }
        let d: u64 = match value_of(s[i], radix) {
            Some(d) => d,
            None => {
                return None;
            },
        };
        proof {
            assert(0 <= acc * radix <= u64::MAX * 16) by (nonlinear_arith)
                requires
                    acc <= u64::MAX,
                    radix <= 16,
            ;
        }
        let wide: u128 = (acc as u128) * (radix as u128) + d as u128;
        if wide > max as u128 {
            return None;
        }
        acc = wide as u64;
        i = i + 1;
    }
    proof {
        assert(body.take(i - start) =~= body);
    }
    Some(acc)
}

// ---------------------------------------------------------------------------
// Characters and equality
// ---------------------------------------------------------------------------

/// The characters of `s`.
pub fn chars_of(s: &str) -> (r: Vec<char>)
    ensures
        r@ == s@,
{
    let mut out: Vec<char> = Vec::new();
    for c in it: s.chars()
        invariant
            out@ == it.seq().take(it.index()),
            it.seq() == s@,
    {
        out.push(c);
        proof {
            assert(out@ =~= it.seq().take(it.index() + 1));
        }
    }
    proof {
        assert(out@ =~= s@);
    }
    out
}

/// The string made of `cs[from..to]`.
pub fn string_of(cs: &[char], from: usize, to: usize) -> (r: String)
    requires
        from <= to <= cs.len(),
    ensures
        r@ == cs@.subrange(from as int, to as int),
{
    let mut out = String::new();
    let mut i: usize = from;
    while i < to
        invariant
            from <= i <= to <= cs.len(),
            out@ == cs@.subrange(from as int, i as int),
        decreases to - i,
    {
        out.push(cs[i]);
        i = i + 1;
        proof {
            assert(out@ =~= cs@.subrange(from as int, i as int));
        }
    }
    out
}

// ---------------------------------------------------------------------------
// Splitting
// ---------------------------------------------------------------------------

/// The views of a sequence of strings.
pub open spec fn views(v: Seq<String>) -> Seq<Seq<char>> {
    v.map_values(|s: String| s@)
}

/// Index of the first `sep` at or after `from`, or the length of `s`.
pub open spec fn find_char(s: Seq<char>, sep: char, from: int) -> int
    decreases s.len() - from,
{
    if from < 0 || from >= s.len() {
        s.len() as int
    } else if s[from] == sep {
        from
    } else {
        find_char(s, sep, from + 1)
    }
}

/// The pieces of `s` between occurrences of `sep`; always at least one piece.
pub open spec fn split(s: Seq<char>, sep: char) -> Seq<Seq<char>>
    decreases s.len(),
{
    let i = find_char(s, sep, 0);
    if 0 <= i < s.len() {
        seq![s.take(i)] + split(s.skip(i + 1), sep)
    } else {
        seq![s]
    }
}

/// What `find_char` finds.
proof fn lemma_find_char(s: Seq<char>, sep: char, from: int)
    requires
        0 <= from <= s.len(),
    ensures
        from <= find_char(s, sep, from) <= s.len(),
        find_char(s, sep, from) < s.len() ==> s[find_char(s, sep, from)] == sep,
        forall|j: int| from <= j < find_char(s, sep, from) ==> s[j] != sep,
    decreases s.len() - from,
{
    if from < s.len() && s[from] != sep {
        lemma_find_char(s, sep, from + 1);
    }
}

/// `find_char` is the only index with the separator and none before it.
proof fn lemma_find_char_unique(s: Seq<char>, sep: char, from: int, i: int)
    requires
        0 <= from <= i <= s.len(),
        i < s.len() ==> s[i] == sep,
        forall|j: int| from <= j < i ==> s[j] != sep,
    ensures
        find_char(s, sep, from) == i,
    decreases i - from,
{
    if from < i {
        lemma_find_char_unique(s, sep, from + 1, i);
    }
}

/// A piece without the separator, then the separator, splits off in front.
pub proof fn lemma_split_cons(a: Seq<char>, sep: char, rest: Seq<char>)
    requires
        forall|j: int| 0 <= j < a.len() ==> a[j] != sep,
    ensures
        split(a + seq![sep] + rest, sep) == seq![a] + split(rest, sep),
{
    let s = a + seq![sep] + rest;
    assert(s[a.len() as int] == sep);
    assert forall|j: int| 0 <= j < a.len() implies s[j] != sep by {
        assert(s[j] == a[j]);
    }
    lemma_find_char_unique(s, sep, 0, a.len() as int);
    assert(s.take(a.len() as int) =~= a);
    assert(s.skip(a.len() as int + 1) =~= rest);
}

/// Text without the separator is a single piece.
pub proof fn lemma_split_one(a: Seq<char>, sep: char)
    requires
        forall|j: int| 0 <= j < a.len() ==> a[j] != sep,
    ensures
        split(a, sep) == seq![a],
{
    lemma_find_char_unique(a, sep, 0, a.len() as int);
}

/// Split `s` at every `sep`.
pub fn split_chars(s: &[char], sep: char) -> (r: Vec<String>)
    ensures
        views(r@) == split(s@, sep),
{
    let mut out: Vec<String> = Vec::new();
    let mut start: usize = 0;
    let mut i: usize = 0;
    proof {
        assert(s@.skip(0) =~= s@);
        assert(views(out@) + split(s@.skip(0), sep) =~= split(s@, sep));
    }
    while i < s.len()
        invariant
            start <= i <= s.len(),
            forall|j: int| start <= j < i ==> s@[j] != sep,
            views(out@) + split(s@.skip(start as int), sep) == split(s@, sep),
        decreases s.len() - i,
    {
        if s[i] == sep {
            let piece = string_of(s, start, i);
            proof {
                let t = s@.skip(start as int);
                let k = i - start;
                assert(t[k] == sep);
                assert forall|j: int| 0 <= j < k implies t[j] != sep by {
                    assert(t[j] == s@[j + start]);
                }
                lemma_find_char_unique(t, sep, 0, k);
                assert(t.take(k) =~= piece@);
                assert(t.skip(k + 1) =~= s@.skip(i + 1));
            }
            let ghost before = views(out@);
            out.push(piece);
            proof {
                assert(views(out@) =~= before.push(piece@));
                assert(views(out@) + split(s@.skip(i + 1), sep) =~= before + (seq![piece@] + split(
                    s@.skip(i + 1),
                    sep,
                )));
            }
            start = i + 1;
        }
        i = i + 1;
    }
    let piece = string_of(s, start, s.len());
    proof {
        let t = s@.skip(start as int);
        assert forall|j: int| 0 <= j < t.len() implies t[j] != sep by {
            assert(t[j] == s@[j + start]);
        }
        lemma_split_one(t, sep);
        assert(piece@ =~= t);
    }
    let ghost before = views(out@);
    out.push(piece);
    proof {
        assert(views(out@) =~= before.push(piece@));
        assert(views(out@) =~= before + seq![piece@]);
    }
    out
}

/// What the standard library says of bytes that are not UTF-8.
pub uninterp spec fn utf8_error_text(b: Seq<u8>) -> Seq<char>;

/// `std::str::from_utf8`: the text of valid UTF-8, or the message of the error.
/// The wording of the message is named, not restated.
#[verifier::external_body]
pub(crate) fn utf8_text(b: &[u8]) -> (r: Result<String, String>)
    ensures
        match r {
            Ok(s) => vstd::utf8::valid_utf8(b@) && s@ == vstd::utf8::decode_utf8(b@),
            Err(m) => !vstd::utf8::valid_utf8(b@) && m@ == utf8_error_text(b@),
        },
{
    match std::str::from_utf8(b) {
        Ok(s) => Ok(s.to_owned()),
        Err(e) => Err(e.to_string()),
    }
}

/// What `{:?}` writes for a string.
pub uninterp spec fn debug_text(s: Seq<char>) -> Seq<char>;

/// `format!` with `{:?}` on a `str`. The quoting and escaping that the standard
/// library applies is named, not restated.
#[verifier::external_body]
pub(crate) fn debug_string(s: &str) -> (r: String)
    ensures
        r@ == debug_text(s@),
{
    format!("{s:?}")
}

/// Value of a hex digit, in either case, given by its ASCII code.
pub open spec fn nibble(b: u8) -> Option<int> {
    if 48 <= b <= 57 {
        Some(b - 48)
    } else if 97 <= b <= 102 {
        Some(b - 87)
    } else if 65 <= b <= 70 {
        Some(b - 55)
    } else {
        None
    }
}

/// Value of a hex digit.
pub fn nibble_of(b: u8) -> (r: Option<u8>)
    ensures
        match nibble(b) {
            Some(x) => r == Some(x as u8) && 0 <= x < 16,
            None => r is None,
        },
{
    if 48 <= b && b <= 57 {
        Some(b - 48)
    } else if 97 <= b && b <= 102 {
        Some(b - 87)
    } else if 65 <= b && b <= 70 {
        Some(b - 55)
    } else {
        None
    }
}

/// A digit character has its value.
pub proof fn lemma_digit_nibble(d: int)
    requires
        0 <= d < 16,
    ensures
        nibble(digit_char(d) as u8) == Some(d),
{
}

/// `a` and `b` are the same text.
pub fn same(a: &str, b: &str) -> (r: bool)
    ensures
        r == (a@ == b@),
{
    a.to_owned() == b.to_owned()
}

} // verus!
