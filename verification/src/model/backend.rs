//! Archive identifiers and the metadata of an archived object.

use crate::text;
use vstd::prelude::*;

verus! {

/// Lustre HSM archive identifier.
#[derive(Clone, Copy, Debug, PartialEq, Eq, Structural, PartialOrd, Ord, Hash)]
pub struct ArchiveId(pub u32);

impl ArchiveId {
    /// Construct from a raw archive number.
    pub fn new(v: u32) -> (r: ArchiveId)
        ensures
            r == ArchiveId(v),
    {
        ArchiveId(v)
    }

    /// The raw archive number.
    pub fn get(self) -> (r: u32)
        ensures
            r == self.0,
    {
        self.0
    }

    /// The number in decimal.
    pub fn to_string(&self) -> (r: String)
        ensures
            r@ == text::dec(self.0 as nat),
    {
        let mut out = String::new();
        text::push_dec(&mut out, self.0 as u128);
        proof {
            assert(out@ =~= text::dec(self.0 as nat));
        }
        out
    }
}

/// Metadata identifying an archived object on a backend.
#[derive(Debug, PartialEq, Eq)]
pub struct BackendObject {
    /// Backend-specific key.
    pub uuid: String,
    /// BLAKE3 hash of the object contents.
    pub hash: [u8; 32],
    /// Full URL of the object, including the backend scheme.
    pub url: String,
}

/// Model of [`BackendObject`].
#[verifier::ext_equal]
pub struct BackendObjectView {
    pub uuid: Seq<char>,
    pub hash: Seq<u8>,
    pub url: Seq<char>,
}

impl View for BackendObject {
    type V = BackendObjectView;

    open spec fn view(&self) -> BackendObjectView {
        BackendObjectView { uuid: self.uuid@, hash: self.hash@, url: self.url@ }
    }
}

impl Clone for BackendObject {
    fn clone(&self) -> (r: BackendObject)
        ensures
            r == *self,
    {
        BackendObject { uuid: self.uuid.clone(), hash: self.hash, url: self.url.clone() }
    }
}

/// Model of an optional object.
pub open spec fn object_opt_view(o: Option<BackendObject>) -> Option<BackendObjectView> {
    match o {
        Some(b) => Some(b@),
        None => None,
    }
}

/// Lowercase hexadecimal text of a byte string, two digits per byte.
pub open spec fn bytes_hex(b: Seq<u8>) -> Seq<char>
    decreases b.len(),
{
    if b.len() == 0 {
        Seq::empty()
    } else {
        bytes_hex(b.drop_last()) + text::byte_hex(b.last())
    }
}

/// Length and digits of `bytes_hex`.
pub proof fn lemma_bytes_hex(b: Seq<u8>)
    ensures
        bytes_hex(b).len() == 2 * b.len(),
        forall|i: int|
            0 <= i < b.len() ==> bytes_hex(b)[2 * i] == text::digit_char(#[trigger] b[i] as int / 16)
                && bytes_hex(b)[2 * i + 1] == text::digit_char(b[i] as int % 16),
        forall|j: int|
            0 <= j < bytes_hex(b).len() ==> ('0' <= #[trigger] bytes_hex(b)[j] <= '9' || 'a'
                <= bytes_hex(b)[j] <= 'f'),
    decreases b.len(),
{
    if b.len() > 0 {
        let p = b.drop_last();
        lemma_bytes_hex(p);
        assert forall|i: int| 0 <= i < b.len() implies bytes_hex(b)[2 * i] == text::digit_char(
            #[trigger] b[i] as int / 16,
        ) && bytes_hex(b)[2 * i + 1] == text::digit_char(b[i] as int % 16) by {
            if i < p.len() {
                assert(p[i] == b[i]);
            }
        }
        assert forall|j: int| 0 <= j < bytes_hex(b).len() implies ('0' <= #[trigger] bytes_hex(b)[j]
            <= '9' || 'a' <= bytes_hex(b)[j] <= 'f') by {
            if j < bytes_hex(p).len() {
                assert(bytes_hex(b)[j] == bytes_hex(p)[j]);
            }
        }
    }
}

impl BackendObject {
    /// Hash as 64 lowercase hex characters.
    pub fn hash_hex(&self) -> (r: String)
        ensures
            r@ == bytes_hex(self.hash@),
            r@.len() == 64,
    {
        let mut out = String::new();
        let mut i: usize = 0;
        proof {
            assert(self.hash@.take(0) =~= Seq::<u8>::empty());
        }
        while i < 32
            invariant
                i <= 32,
                self.hash@.len() == 32,
                out@ == bytes_hex(self.hash@.take(i as int)),
            decreases 32 - i,
        {
            text::push_byte_hex(&mut out, self.hash[i]);
            proof {
                assert(self.hash@.take(i + 1).drop_last() =~= self.hash@.take(i as int));
            }
            i = i + 1;
        }
        proof {
            assert(self.hash@.take(32) =~= self.hash@);
            lemma_bytes_hex(self.hash@);
        }
        out
    }
}

} // verus!
