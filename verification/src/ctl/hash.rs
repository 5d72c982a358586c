//! Hashes on the command line.

use crate::ctl::args::ImportArgs;
use crate::model::backend;
use crate::model::backend::BackendObjectView;
use crate::model::BackendObject;
use crate::text;
use vstd::prelude::*;

verus! {

/// Why a text is not hex.
#[derive(Clone, Copy, Debug, PartialEq, Eq, Structural)]
pub enum HexError {
    /// A byte that is no hex digit, as a character, and its index.
    InvalidCharacter {
        /// The byte.
        c: char,
        /// Where it stands.
        index: usize,
    },
    /// One digit too many.
    OddLength,
    /// The wrong number of digits for a fixed-size target.
    InvalidLength,
}

/// Index of the first byte at or after `i` that is no hex digit, or the length.
pub open spec fn first_bad(raw: Seq<u8>, i: int) -> int
    decreases raw.len() - i,
{
    if i >= raw.len() || text::nibble(raw[i]) is None {
        i
    } else {
        first_bad(raw, i + 1)
    }
}

/// The bytes that a text of hex digits stands for.
pub open spec fn decoded(raw: Seq<u8>) -> Result<Seq<u8>, HexError> {
    let bad = first_bad(raw, 0);
    if raw.len() % 2 != 0 {
        Err(HexError::OddLength)
    } else if bad < raw.len() {
        Err(HexError::InvalidCharacter { c: raw[bad] as char, index: bad as usize })
    } else {
        Ok(
            Seq::new(
                raw.len() / 2,
                |i: int| (16 * text::nibble(raw[2 * i])->0 + text::nibble(raw[2 * i + 1])->0) as u8,
            ),
        )
    }
}

/// `hex::decode`: two digits of either case for each byte. An odd number of
/// digits is reported first, then the first byte that is no digit.
#[verifier::external_body]
fn hex_decode(s: &str) -> (r: Result<Vec<u8>, HexError>)
    ensures
        match decoded(vstd::utf8::encode_utf8(s@)) {
            Ok(b) => r matches Ok(v) && v@ == b,
            Err(e) => r matches Err(x) && x == e,
        },
{
    match hex::decode(s) {
        Ok(v) => Ok(v),
        Err(hex::FromHexError::InvalidHexCharacter { c, index }) => {
            Err(HexError::InvalidCharacter { c, index })
        },
        Err(hex::FromHexError::OddLength) => Err(HexError::OddLength),
        Err(hex::FromHexError::InvalidStringLength) => Err(HexError::InvalidLength),
    }
}

/// What `{:?}` writes for a character.
pub uninterp spec fn char_text(c: char) -> Seq<char>;

/// `format!` with `{:?}` on a `char`. The quoting and escaping that the standard
/// library applies is named, not restated.
#[verifier::external_body]
fn char_string(c: char) -> (r: String)
    ensures
        r@ == char_text(c),
{
    format!("{c:?}")
}

impl HexError {
    /// Text of the error.
    pub open spec fn message(self) -> Seq<char> {
        match self {
            HexError::InvalidCharacter { c, index } => "Invalid character "@ + char_text(c)
                + " at position "@ + text::dec(index as nat),
            HexError::OddLength => "Odd number of digits"@,
            HexError::InvalidLength => "Invalid string length"@,
        }
    }

    /// Human-readable description.
    pub fn to_string(&self) -> (r: String)
        ensures
            r@ == self.message(),
    {
        match *self {
            HexError::InvalidCharacter { c, index } => {
                let mut out = "Invalid character ".to_owned();
                out.append(char_string(c).as_str());
                out.append(" at position ");
                text::push_dec(&mut out, index as u128);
                out
            },
            HexError::OddLength => "Odd number of digits".to_owned(),
            HexError::InvalidLength => "Invalid string length".to_owned(),
        }
    }
}

/// What 32 bytes in hex stand for, or why a text is not that. `n` is the number
/// of bytes of the text.
pub open spec fn as_hash(d: Result<Seq<u8>, HexError>, n: nat) -> Result<Seq<u8>, Seq<char>> {
    match d {
        Err(e) => Err("invalid hex: "@ + e.message()),
        Ok(b) => if b.len() == 32 {
            Ok(b)
        } else {
            Err("expected 32 bytes (64 hex chars), got "@ + text::dec(n / 2) + " bytes"@)
        },
    }
}

/// What a text stands for as a hash, or why it does not.
pub open spec fn hash_meaning(s: Seq<char>) -> Result<Seq<u8>, Seq<char>> {
    let raw = vstd::utf8::encode_utf8(s);
    as_hash(decoded(raw), raw.len())
}

/// Judge what decoding gave for a text of `n` bytes.
pub fn check_hash32(d: Result<Vec<u8>, HexError>, n: usize) -> (r: Result<[u8; 32], String>)
    ensures
        match (match d {
            Ok(v) => as_hash(Ok(v@), n as nat),
            Err(e) => as_hash(Err(e), n as nat),
        }) {
            Ok(h) => r matches Ok(x) && x@ == h,
            Err(m) => r matches Err(x) && x@ == m,
        },
{
    match d {
        Err(e) => {
            let mut m = "invalid hex: ".to_owned();
            m.append(e.to_string().as_str());
            Err(m)
        },
        Ok(v) => {
            if v.len() != 32 {
                let mut m = "expected 32 bytes (64 hex chars), got ".to_owned();
                text::push_dec(&mut m, (n / 2) as u128);
                m.append(" bytes");
                return Err(m);
            }
            let mut out: [u8; 32] = [0u8;32];
            let mut i: usize = 0;
            while i < 32
                invariant
                    i <= 32,
                    v@.len() == 32,
                    forall|j: int| 0 <= j < i ==> #[trigger] out@[j] == v@[j],
                decreases 32 - i,
            {
                out[i] = v[i];
                i = i + 1;
            }
            proof {
                assert(out@ =~= v@);
            }
            Ok(out)
        },
    }
}

/// Read a hash: exactly 32 bytes in hex, in either case.
pub fn decode_hash32(s: &str) -> (r: Result<[u8; 32], String>)
    ensures
        match hash_meaning(s@) {
            Ok(h) => r matches Ok(x) && x@ == h,
            Err(m) => r matches Err(x) && x@ == m,
        },
{
    let n: usize = s.as_bytes().len();
    check_hash32(hex_decode(s), n)
}

/// The object that `import` registers.
pub fn import_object(args: &ImportArgs) -> (r: Result<BackendObject, String>)
    ensures
        match hash_meaning(args.hash_hex@) {
            Ok(h) => r matches Ok(o) && o@ == (BackendObjectView {
                uuid: args.uuid@,
                hash: h,
                url: args.url@,
            }),
            Err(m) => r matches Err(x) && x@ == "--hash "@ + args.hash_hex@ + ": "@ + m,
        },
{
    match decode_hash32(args.hash_hex.as_str()) {
        Ok(hash) => Ok(BackendObject { uuid: args.uuid.clone(), hash, url: args.url.clone() }),
        Err(e) => {
            let mut m = "--hash ".to_owned();
            m.append(args.hash_hex.as_str());
            m.append(": ");
            m.append(e.as_str());
            Err(m)
        },
    }
}

// ---------------------------------------------------------------------------
// Laws
// ---------------------------------------------------------------------------

/// A text of digits only has no bad byte.
proof fn lemma_no_bad(raw: Seq<u8>, i: int)
    requires
        0 <= i <= raw.len(),
        forall|j: int| 0 <= j < raw.len() ==> text::nibble(#[trigger] raw[j]) is Some,
    ensures
        first_bad(raw, i) == raw.len(),
    decreases raw.len() - i,
{
    if i < raw.len() {
        lemma_no_bad(raw, i + 1);
    }
}

/// The printed form of a hash is read back as that hash.
pub proof fn lemma_hash_round_trip(h: Seq<u8>)
    requires
        h.len() == 32,
    ensures
        hash_meaning(backend::bytes_hex(h)) == Ok::<Seq<u8>, Seq<char>>(h),
{
    let s = backend::bytes_hex(h);
    backend::lemma_bytes_hex(h);
    vstd::utf8::is_ascii_chars_encode_utf8(s);
    let raw = vstd::utf8::encode_utf8(s);
    assert forall|i: int| 0 <= i < 32 implies text::nibble(raw[2 * i]) == Some(
        #[trigger] h[i] as int / 16,
    ) && text::nibble(raw[2 * i + 1]) == Some(h[i] as int % 16) by {
        let b = h[i];
        assert(s[2 * i] == text::digit_char(b as int / 16));
        assert(s[2 * i + 1] == text::digit_char(b as int % 16));
        assert(raw[2 * i] == s[2 * i] as u8);
        assert(raw[2 * i + 1] == s[2 * i + 1] as u8);
        text::lemma_digit_nibble(b as int / 16);
        text::lemma_digit_nibble(b as int % 16);
    }
    assert forall|j: int| 0 <= j < raw.len() implies text::nibble(#[trigger] raw[j]) is Some by {
        let i = j / 2;
        assert(text::nibble(raw[2 * i]) == Some(h[i] as int / 16));
        assert(j == 2 * i || j == 2 * i + 1);
    }
    lemma_no_bad(raw, 0);
    let back = Seq::new(
        raw.len() / 2,
        |i: int| (16 * text::nibble(raw[2 * i])->0 + text::nibble(raw[2 * i + 1])->0) as u8,
    );
    assert forall|i: int| 0 <= i < 32 implies back[i] == h[i] by {
        assert(text::nibble(raw[2 * i]) == Some(h[i] as int / 16));
    }
    assert(back =~= h);
}

/// What is accepted as a hash has 64 bytes of text.
pub proof fn lemma_hash_length(s: Seq<char>)
    ensures
        hash_meaning(s) is Ok ==> vstd::utf8::encode_utf8(s).len() == 64,
{
}

} // verus!
