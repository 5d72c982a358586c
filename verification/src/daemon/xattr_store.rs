//! Where a file's archive metadata is kept: three extended attributes.
//!
//! The object's key and URL are stored as UTF-8, the hash as 64 lowercase hex
//! digits. Production uses the `trusted` namespace; development without root
//! uses `user`.

use crate::model::backend;
use crate::model::backend::BackendObjectView;
use crate::model::BackendObject;
use crate::text;
use vstd::prelude::*;

verus! {

/// `ENODATA`: there is no such attribute.
pub const ENODATA: i32 = 61;

/// Which attribute namespace to use.
#[derive(Clone, Copy, Debug, PartialEq, Eq, Structural)]
pub enum XattrNamespace {
    /// `trusted.lhsm_*`, for production.
    Trusted,
    /// `user.lhsm_*`, for development without root.
    User,
}

impl Default for XattrNamespace {
    fn default() -> (r: XattrNamespace)
        ensures
            r == XattrNamespace::Trusted,
    {
        XattrNamespace::Trusted
    }
}

impl XattrNamespace {
    /// Name of the attribute `suffix` in this namespace.
    pub open spec fn attr(self, suffix: Seq<char>) -> Seq<char> {
        (match self {
            XattrNamespace::Trusted => "trusted"@,
            XattrNamespace::User => "user"@,
        }) + "."@ + suffix
    }

    /// Name of the attribute `suffix` in this namespace.
    fn name(self, suffix: &str) -> (r: String)
        ensures
            r@ == self.attr(suffix@),
    {
        let mut out = match self {
            XattrNamespace::Trusted => "trusted".to_owned(),
            XattrNamespace::User => "user".to_owned(),
        };
        out.append(".");
        out.append(suffix);
        out
    }

    /// Attribute of the object's key.
    pub fn uuid_name(self) -> (r: String)
        ensures
            r@ == self.attr("lhsm_uuid"@),
    {
        self.name("lhsm_uuid")
    }

    /// Attribute of the object's hash.
    pub fn hash_name(self) -> (r: String)
        ensures
            r@ == self.attr("lhsm_hash"@),
    {
        self.name("lhsm_hash")
    }

    /// Attribute of the object's URL.
    pub fn url_name(self) -> (r: String)
        ensures
            r@ == self.attr("lhsm_url"@),
    {
        self.name("lhsm_url")
    }
}

/// The attribute names differ within and across the namespaces.
pub proof fn lemma_names_distinct(a: XattrNamespace, b: XattrNamespace)
    ensures
        a.attr("lhsm_uuid"@) != b.attr("lhsm_hash"@),
        a.attr("lhsm_uuid"@) != b.attr("lhsm_url"@),
        a.attr("lhsm_hash"@) != b.attr("lhsm_url"@),
        a != b ==> a.attr("lhsm_uuid"@) != b.attr("lhsm_uuid"@),
        a != b ==> a.attr("lhsm_hash"@) != b.attr("lhsm_hash"@),
        a != b ==> a.attr("lhsm_url"@) != b.attr("lhsm_url"@),
{
    reveal_strlit("trusted");
    reveal_strlit("user");
    reveal_strlit(".");
    reveal_strlit("lhsm_uuid");
    reveal_strlit("lhsm_hash");
    reveal_strlit("lhsm_url");
    let ta = XattrNamespace::Trusted.attr("lhsm_uuid"@);
    let tb = XattrNamespace::Trusted.attr("lhsm_hash"@);
    let tc = XattrNamespace::Trusted.attr("lhsm_url"@);
    let ua = XattrNamespace::User.attr("lhsm_uuid"@);
    let ub = XattrNamespace::User.attr("lhsm_hash"@);
    let uc = XattrNamespace::User.attr("lhsm_url"@);
    assert(ta[0] == 't' && tb[0] == 't' && tc[0] == 't');
    assert(ua[0] == 'u' && ub[0] == 'u' && uc[0] == 'u');
    assert(ta[13] == 'u' && tb[13] == 'h' && tc[13] == 'u');
    assert(ua[10] == 'u' && ub[10] == 'h' && uc[10] == 'u');
    assert(ta[14] == 'u' && tc[14] == 'r');
    assert(ua[11] == 'u' && uc[11] == 'r');
}

/// Errors of keeping an object in attributes.
#[derive(Debug, PartialEq, Eq)]
pub enum XattrError {
    /// The system refused the operation.
    Io {
        /// Operation: `set`, `get` or `remove`.
        op: &'static str,
        /// File it was for.
        path: String,
        /// What the system said.
        source: String,
    },
    /// The hash attribute does not hold 32 bytes of hex.
    BadHash {
        /// File it is on.
        path: String,
        /// Why not.
        reason: String,
    },
    /// The key or URL attribute is not UTF-8.
    BadUtf8 {
        /// Which attribute.
        name: String,
        /// File it is on.
        path: String,
    },
    /// Some attributes are there, but not all three.
    Partial {
        /// File they are on.
        path: String,
        /// How many are there.
        present: usize,
        /// Names of those that are not.
        missing: Vec<String>,
    },
}

/// Model of [`XattrError`].
#[verifier::ext_equal]
pub enum XattrErrorView {
    Io { op: Seq<char>, path: Seq<char>, source: Seq<char> },
    BadHash { path: Seq<char>, reason: Seq<char> },
    BadUtf8 { name: Seq<char>, path: Seq<char> },
    Partial { path: Seq<char>, present: int, missing: Seq<Seq<char>> },
}

impl View for XattrError {
    type V = XattrErrorView;

    open spec fn view(&self) -> XattrErrorView {
        match *self {
            XattrError::Io { op, path, source } => XattrErrorView::Io {
                op: op@,
                path: path@,
                source: source@,
            },
            XattrError::BadHash { path, reason } => XattrErrorView::BadHash {
                path: path@,
                reason: reason@,
            },
            XattrError::BadUtf8 { name, path } => XattrErrorView::BadUtf8 {
                name: name@,
                path: path@,
            },
            XattrError::Partial { path, present, missing } => XattrErrorView::Partial {
                path: path@,
                present: present as int,
                missing: text::views(missing@),
            },
        }
    }
}

/// Result alias.
pub type XattrResult<T> = Result<T, XattrError>;

/// The quoted names of a list, separated by commas.
pub open spec fn quoted(names: Seq<Seq<char>>) -> Seq<char>
    decreases names.len(),
{
    if names.len() == 0 {
        Seq::empty()
    } else if names.len() == 1 {
        text::debug_text(names[0])
    } else {
        quoted(names.drop_last()) + ", "@ + text::debug_text(names.last())
    }
}

impl XattrErrorView {
    /// Text of the error.
    pub open spec fn message(self) -> Seq<char> {
        match self {
            XattrErrorView::Io { op, path, source } => "xattr "@ + op + " on "@ + path + ": "@
                + source,
            XattrErrorView::BadHash { path, reason } => "hash xattr on "@ + path
                + " is not 32 bytes of hex: "@ + reason,
            XattrErrorView::BadUtf8 { name, path } => "xattr "@ + name + " on "@ + path
                + " is not valid UTF-8"@,
            XattrErrorView::Partial { path, present, missing } => "partial xattr set on "@ + path
                + ": "@ + text::dec(present as nat) + " present, missing ["@ + quoted(missing)
                + "]"@,
        }
    }
}

/// Append the quoted names of a list.
fn push_quoted(out: &mut String, names: &Vec<String>)
    ensures
        final(out)@ == old(out)@ + quoted(text::views(names@)),
{
    let ghost all = text::views(names@);
    let ghost start = out@;
    let mut i: usize = 0;
    proof {
        assert(all.take(0) =~= Seq::<Seq<char>>::empty());
        assert(start + quoted(all.take(0)) =~= start);
    }
    while i < names.len()
        invariant
            i <= names@.len(),
            all == text::views(names@),
            out@ == start + quoted(all.take(i as int)),
        decreases names.len() - i,
    {
        let ghost before = out@;
        if i > 0 {
            out.append(", ");
        }
        out.append(text::debug_string(names[i].as_str()).as_str());
        proof {
            assert(all.take(i + 1).drop_last() =~= all.take(i as int));
            assert(all.take(i + 1).last() == names@[i as int]@);
            assert(out@ =~= start + quoted(all.take(i + 1)));
        }
        i = i + 1;
    }
    proof {
        assert(all.take(i as int) =~= all);
    }
}

impl XattrError {
    /// Human-readable description.
    pub fn to_string(&self) -> (r: String)
        ensures
            r@ == self@.message(),
    {
        match self {
            XattrError::Io { op, path, source } => {
                let mut out = "xattr ".to_owned();
                out.append(op);
                out.append(" on ");
                out.append(path.as_str());
                out.append(": ");
                out.append(source.as_str());
                out
            },
            XattrError::BadHash { path, reason } => {
                let mut out = "hash xattr on ".to_owned();
                out.append(path.as_str());
                out.append(" is not 32 bytes of hex: ");
                out.append(reason.as_str());
                out
            },
            XattrError::BadUtf8 { name, path } => {
                let mut out = "xattr ".to_owned();
                out.append(name.as_str());
                out.append(" on ");
                out.append(path.as_str());
                out.append(" is not valid UTF-8");
                out
            },
            XattrError::Partial { path, present, missing } => {
                let mut out = "partial xattr set on ".to_owned();
                out.append(path.as_str());
                out.append(": ");
                text::push_dec(&mut out, *present as u128);
                out.append(" present, missing [");
                push_quoted(&mut out, missing);
                out.append("]");
                out
            },
        }
    }
}

// ---------------------------------------------------------------------------
// Attributes of a file
// ---------------------------------------------------------------------------

/// Attribute values by name.
pub type Attrs = Map<Seq<char>, Seq<u8>>;

/// The attributes of one file, as far as they matter here.
#[derive(Debug, PartialEq, Eq)]
pub struct FileAttrs {
    entries: Vec<(String, Vec<u8>)>,
}

/// The values of a list of entries.
pub open spec fn entries_map(s: Seq<(String, Vec<u8>)>) -> Attrs
    decreases s.len(),
{
    if s.len() == 0 {
        Map::empty()
    } else {
        entries_map(s.drop_last()).insert(s.last().0@, s.last().1@)
    }
}

/// No name occurs twice.
pub open spec fn distinct_names(s: Seq<(String, Vec<u8>)>) -> bool {
    forall|i: int, j: int| 0 <= i < j < s.len() ==> (#[trigger] s[i]).0@ != (#[trigger] s[j]).0@
}

impl View for FileAttrs {
    type V = Attrs;

    closed spec fn view(&self) -> Attrs {
        entries_map(self.entries@)
    }
}

/// What the entries say of a name.
proof fn lemma_entries_map(s: Seq<(String, Vec<u8>)>)
    requires
        distinct_names(s),
    ensures
        forall|i: int|
            0 <= i < s.len() ==> entries_map(s).contains_key((#[trigger] s[i]).0@)
                && entries_map(s)[s[i].0@] == s[i].1@,
        forall|n: Seq<char>| #[trigger]
            entries_map(s).contains_key(n) ==> exists|i: int|
                0 <= i < s.len() && (#[trigger] s[i]).0@ == n,
    decreases s.len(),
{
    if s.len() > 0 {
        let p = s.drop_last();
        assert forall|i: int, j: int| 0 <= i < j < p.len() implies (#[trigger] p[i]).0@ != (
        #[trigger] p[j]).0@ by {
            assert(p[i] == s[i] && p[j] == s[j]);
        }
        lemma_entries_map(p);
        assert forall|i: int| 0 <= i < s.len() implies entries_map(s).contains_key(
            (#[trigger] s[i]).0@,
        ) && entries_map(s)[s[i].0@] == s[i].1@ by {
            if i < p.len() {
                assert(p[i] == s[i]);
                assert(s[i].0@ != s[s.len() - 1].0@);
            }
        }
        assert forall|n: Seq<char>| #[trigger] entries_map(s).contains_key(n) implies exists|i: int|
            0 <= i < s.len() && (#[trigger] s[i]).0@ == n by {
            if n == s.last().0@ {
                assert(s[s.len() - 1].0@ == n);
            } else {
                assert(entries_map(p).contains_key(n));
                let i = choose|i: int| 0 <= i < p.len() && (#[trigger] p[i]).0@ == n;
                assert(p[i] == s[i]);
                assert(s[i].0@ == n);
            }
        }
    }
}

/// Two lists of distinct entries with the same entries have the same map.
proof fn lemma_entries_remove(s: Seq<(String, Vec<u8>)>, k: int)
    requires
        distinct_names(s),
        0 <= k < s.len(),
    ensures
        distinct_names(s.remove(k)),
        entries_map(s.remove(k)) == entries_map(s).remove(s[k].0@),
{
    let t = s.remove(k);
    assert forall|i: int, j: int| 0 <= i < j < t.len() implies (#[trigger] t[i]).0@ != (
    #[trigger] t[j]).0@ by {
        let a = if i < k { i } else { i + 1 };
        let b = if j < k { j } else { j + 1 };
        assert(t[i] == s[a] && t[j] == s[b]);
    }
    lemma_entries_map(s);
    lemma_entries_map(t);
    let m = entries_map(s).remove(s[k].0@);
    let n = entries_map(t);
    assert forall|x: Seq<char>| #[trigger] n.contains_key(x) <==> m.contains_key(x) by {
        if n.contains_key(x) {
            let i = choose|i: int| 0 <= i < t.len() && (#[trigger] t[i]).0@ == x;
            let a = if i < k { i } else { i + 1 };
            assert(s[a] == t[i]);
            assert(s[a].0@ != s[k].0@);
        }
        if m.contains_key(x) {
            let a = choose|a: int| 0 <= a < s.len() && (#[trigger] s[a]).0@ == x;
            assert(a != k);
            let i = if a < k { a } else { a - 1 };
            assert(t[i] == s[a]);
        }
    }
    assert forall|x: Seq<char>| n.contains_key(x) implies #[trigger] n[x] == m[x] by {
        let i = choose|i: int| 0 <= i < t.len() && (#[trigger] t[i]).0@ == x;
        let a = if i < k { i } else { i + 1 };
        assert(s[a] == t[i]);
    }
    assert(n =~= m);
}

impl FileAttrs {
    /// No name occurs twice.
    pub closed spec fn wf(&self) -> bool {
        distinct_names(self.entries@)
    }

    /// No attributes.
    pub fn new() -> (r: FileAttrs)
        ensures
            r.wf(),
            r@ == Attrs::empty(),
    {
        FileAttrs { entries: Vec::new() }
    }

    /// Index of an attribute, or the number of attributes.
    fn find(&self, name: &str) -> (r: usize)
        requires
            self.wf(),
        ensures
            r <= self.entries@.len(),
            r < self.entries@.len() ==> self.entries@[r as int].0@ == name@ && self@.contains_key(
                name@,
            ) && self@[name@] == self.entries@[r as int].1@,
            r == self.entries@.len() ==> !self@.contains_key(name@),
    {
        let mut i: usize = 0;
        while i < self.entries.len()
            invariant
                i <= self.entries@.len(),
                self.wf(),
                forall|j: int| 0 <= j < i ==> (#[trigger] self.entries@[j]).0@ != name@,
            decreases self.entries.len() - i,
        {
            if text::same(self.entries[i].0.as_str(), name) {
                proof {
                    lemma_entries_map(self.entries@);
                }
                return i;
            }
            i = i + 1;
        }
        proof {
            lemma_entries_map(self.entries@);
        }
        i
    }

    /// Value of an attribute.
    pub fn get(&self, name: &str) -> (r: Option<Vec<u8>>)
        requires
            self.wf(),
        ensures
            match r {
                Some(v) => self@.contains_key(name@) && v@ == self@[name@],
                None => !self@.contains_key(name@),
            },
    {
        let i: usize = self.find(name);
        if i < self.entries.len() {
            let v = self.entries[i].1.clone();
            proof {
                assert(v@ =~= self.entries@[i as int].1@);
            }
            Some(v)
        } else {
            None
        }
    }

    /// Remove an attribute, if it is there.
    pub fn remove(&mut self, name: &str)
        requires
            old(self).wf(),
        ensures
            final(self).wf(),
            final(self)@ == old(self)@.remove(name@),
    {
        let i: usize = self.find(name);
        if i < self.entries.len() {
            proof {
                lemma_entries_remove(self.entries@, i as int);
            }
            self.entries.remove(i);
        } else {
            proof {
                assert(self@.remove(name@) =~= self@);
            }
        }
    }

    /// Set an attribute, in place of an older value.
    pub fn set(&mut self, name: String, value: Vec<u8>)
        requires
            old(self).wf(),
        ensures
            final(self).wf(),
            final(self)@ == old(self)@.insert(name@, value@),
    {
        let ghost before = self@;
        self.remove(name.as_str());
        let ghost s = self.entries@;
        proof {
            lemma_entries_map(s);
        }
        self.entries.push((name, value));
        proof {
            let t = self.entries@;
            assert(t.drop_last() =~= s);
            assert forall|i: int, j: int| 0 <= i < j < t.len() implies (#[trigger] t[i]).0@ != (
            #[trigger] t[j]).0@ by {
                if j == s.len() {
                    assert(t[i] == s[i]);
                    assert(entries_map(s).contains_key(s[i].0@));
                } else {
                    assert(t[i] == s[i] && t[j] == s[j]);
                }
            }
            assert(before.remove(name@).insert(name@, value@) =~= before.insert(name@, value@));
        }
    }
}

// ---------------------------------------------------------------------------
// Objects in attributes
// ---------------------------------------------------------------------------

/// The attributes after an object was written.
pub open spec fn written(m: Attrs, ns: XattrNamespace, obj: BackendObjectView) -> Attrs {
    m.insert(ns.attr("lhsm_uuid"@), vstd::utf8::encode_utf8(obj.uuid)).insert(
        ns.attr("lhsm_hash"@),
        vstd::utf8::encode_utf8(backend::bytes_hex(obj.hash)),
    ).insert(ns.attr("lhsm_url"@), vstd::utf8::encode_utf8(obj.url))
}

/// The attributes after an object was cleared.
pub open spec fn cleared(m: Attrs, ns: XattrNamespace) -> Attrs {
    m.remove(ns.attr("lhsm_uuid"@)).remove(ns.attr("lhsm_hash"@)).remove(ns.attr("lhsm_url"@))
}

/// Value of an attribute, if it is there.
pub open spec fn lookup(m: Attrs, name: Seq<char>) -> Option<Seq<u8>> {
    if m.contains_key(name) {
        Some(m[name])
    } else {
        None
    }
}

/// The byte that two characters stand for: both are hex digits, of either case.
pub open spec fn pair_value(a: u8, b: u8) -> Option<u8> {
    match (text::nibble(a), text::nibble(b)) {
        (Some(x), Some(y)) => Some((16 * x + y) as u8),
        _ => None,
    }
}

/// Index of the first bad pair of 64 characters at or after `i`, or 32.
pub open spec fn first_bad(raw: Seq<u8>, i: int) -> int
    decreases 32 - i,
{
    if i >= 32 {
        32
    } else if pair_value(raw[2 * i], raw[2 * i + 1]) is None {
        i
    } else {
        first_bad(raw, i + 1)
    }
}

/// The hash that a value holds, or why it holds none.
pub open spec fn hash_value(raw: Seq<u8>) -> Result<Seq<u8>, Seq<char>> {
    if !vstd::utf8::valid_utf8(raw) {
        Err("not UTF-8"@)
    } else if raw.len() != 64 {
        Err("len "@ + text::dec(raw.len()) + " != 64"@)
    } else if first_bad(raw, 0) < 32 {
        Err("byte "@ + text::dec(first_bad(raw, 0) as nat) + ": invalid digit found in string"@)
    } else {
        Ok(Seq::new(32, |i: int| pair_value(raw[2 * i], raw[2 * i + 1])->0))
    }
}

/// The names of the attributes that are not there.
pub open spec fn missing_names(m: Attrs, ns: XattrNamespace) -> Seq<Seq<char>> {
    let uuid = ns.attr("lhsm_uuid"@);
    let hash = ns.attr("lhsm_hash"@);
    let url = ns.attr("lhsm_url"@);
    (if m.contains_key(uuid) {
        Seq::empty()
    } else {
        seq![uuid]
    }) + (if m.contains_key(hash) {
        Seq::empty()
    } else {
        seq![hash]
    }) + (if m.contains_key(url) {
        Seq::empty()
    } else {
        seq![url]
    })
}

/// The object that the attributes hold; `None` when no attribute is there, an
/// error when some are missing or a value is malformed. The key is judged first,
/// then the URL, then the hash.
pub open spec fn stored(path: Seq<char>, m: Attrs, ns: XattrNamespace) -> Result<
    Option<BackendObjectView>,
    XattrErrorView,
> {
    let missing = missing_names(m, ns);
    let uuid = m[ns.attr("lhsm_uuid"@)];
    let hash = m[ns.attr("lhsm_hash"@)];
    let url = m[ns.attr("lhsm_url"@)];
    if missing.len() == 3 {
        Ok(None)
    } else if missing.len() > 0 {
        Err(XattrErrorView::Partial { path, present: 3 - missing.len(), missing })
    } else if !vstd::utf8::valid_utf8(uuid) {
        Err(XattrErrorView::BadUtf8 { name: ns.attr("lhsm_uuid"@), path })
    } else if !vstd::utf8::valid_utf8(url) {
        Err(XattrErrorView::BadUtf8 { name: ns.attr("lhsm_url"@), path })
    } else {
        match hash_value(hash) {
            Ok(h) => Ok(
                Some(
                    BackendObjectView {
                        uuid: vstd::utf8::decode_utf8(uuid),
                        hash: h,
                        url: vstd::utf8::decode_utf8(url),
                    },
                ),
            ),
            Err(reason) => Err(XattrErrorView::BadHash { path, reason }),
        }
    }
}

/// The bytes of a string.
fn bytes_of_str(s: &str) -> (r: Vec<u8>)
    ensures
        r@ == vstd::utf8::encode_utf8(s@),
{
    s.as_bytes_vec()
}

/// Write an object; older values are overwritten.
pub fn write_obj(attrs: &mut FileAttrs, ns: XattrNamespace, obj: &BackendObject)
    requires
        old(attrs).wf(),
    ensures
        final(attrs).wf(),
        final(attrs)@ == written(old(attrs)@, ns, obj@),
{
    attrs.set(ns.uuid_name(), bytes_of_str(obj.uuid.as_str()));
    attrs.set(ns.hash_name(), bytes_of_str(obj.hash_hex().as_str()));
    attrs.set(ns.url_name(), bytes_of_str(obj.url.as_str()));
}

/// Remove an object; what is not there is not missed.
pub fn clear_obj(attrs: &mut FileAttrs, ns: XattrNamespace)
    requires
        old(attrs).wf(),
    ensures
        final(attrs).wf(),
        final(attrs)@ == cleared(old(attrs)@, ns),
{
    attrs.remove(ns.uuid_name().as_str());
    attrs.remove(ns.hash_name().as_str());
    attrs.remove(ns.url_name().as_str());
}

/// The three attribute names, in the order they are read and written.
pub fn attr_names(ns: XattrNamespace) -> (r: Vec<String>)
    ensures
        text::views(r@) == seq![
            ns.attr("lhsm_uuid"@),
            ns.attr("lhsm_hash"@),
            ns.attr("lhsm_url"@),
        ],
{
    let mut out: Vec<String> = Vec::new();
    out.push(ns.uuid_name());
    out.push(ns.hash_name());
    out.push(ns.url_name());
    proof {
        assert(text::views(out@) =~= seq![
            ns.attr("lhsm_uuid"@),
            ns.attr("lhsm_hash"@),
            ns.attr("lhsm_url"@),
        ]);
    }
    out
}

/// Value of two characters.
fn pair(a: u8, b: u8) -> (r: Option<u8>)
    ensures
        r == pair_value(a, b),
{
    match (text::nibble_of(a), text::nibble_of(b)) {
        (Some(x), Some(y)) => Some(16 * x + y),
        _ => None,
    }
}

/// Decode a hash value.
fn decode_hash(path: &str, raw: &[u8]) -> (r: XattrResult<[u8; 32]>)
    ensures
        match hash_value(raw@) {
            Ok(h) => r matches Ok(x) && x@ == h,
            Err(reason) => r matches Err(e) && e@ == (XattrErrorView::BadHash {
                path: path@,
                reason,
            }),
        },
{
    if text::utf8_text(raw).is_err() {
        return Err(
            XattrError::BadHash { path: path.to_owned(), reason: "not UTF-8".to_owned() },
        );
    }
    if raw.len() != 64 {
        let mut reason = "len ".to_owned();
        text::push_dec(&mut reason, raw.len() as u128);
        reason.append(" != 64");
        return Err(XattrError::BadHash { path: path.to_owned(), reason });
    }
    let mut out: [u8; 32] = [0u8;32];
    let mut i: usize = 0;
    while i < 32
        invariant
            i <= 32,
            raw@.len() == 64,
            first_bad(raw@, 0) == first_bad(raw@, i as int),
            vstd::utf8::valid_utf8(raw@),
            forall|j: int|
                0 <= j < i ==> pair_value(raw@[2 * j], raw@[2 * j + 1]) == Some(
                    #[trigger] out@[j],
                ),
        decreases 32 - i,
    {
        match pair(raw[2 * i], raw[2 * i + 1]) {
            Some(v) => {
                out[i] = v;
            },
            None => {
                let mut reason = "byte ".to_owned();
                text::push_dec(&mut reason, i as u128);
                reason.append(": invalid digit found in string");
                return Err(XattrError::BadHash { path: path.to_owned(), reason });
            },
        }
        i = i + 1;
    }
    proof {
        assert(out@ =~= Seq::new(32, |i: int| pair_value(raw@[2 * i], raw@[2 * i + 1])->0));
    }
    Ok(out)
}

/// Read the object that a file's attributes hold.
pub fn read_obj(path: &str, attrs: &FileAttrs, ns: XattrNamespace) -> (r: XattrResult<
    Option<BackendObject>,
>)
    requires
        attrs.wf(),
    ensures
        match stored(path@, attrs@, ns) {
            Ok(o) => r matches Ok(x) && backend::object_opt_view(x) == o,
            Err(e) => r matches Err(x) && x@ == e,
        },
{
    let uuid_name = ns.uuid_name();
    let hash_name = ns.hash_name();
    let url_name = ns.url_name();
    let uuid_v = attrs.get(uuid_name.as_str());
    let hash_v = attrs.get(hash_name.as_str());
    let url_v = attrs.get(url_name.as_str());
    let ghost missing_spec = missing_names(attrs@, ns);
    match (uuid_v, hash_v, url_v) {
        (None, None, None) => Ok(None),
        (Some(uuid_b), Some(hash_b), Some(url_b)) => {
            let uuid = match text::utf8_text(uuid_b.as_slice()) {
                Ok(s) => s,
                Err(_) => {
                    return Err(XattrError::BadUtf8 { name: uuid_name, path: path.to_owned() });
                },
            };
            let url = match text::utf8_text(url_b.as_slice()) {
                Ok(s) => s,
                Err(_) => {
                    return Err(XattrError::BadUtf8 { name: url_name, path: path.to_owned() });
                },
            };
            match decode_hash(path, hash_b.as_slice()) {
                Ok(hash) => Ok(Some(BackendObject { uuid, hash, url })),
                Err(e) => Err(e),
            }
        },
        (uuid_v, hash_v, url_v) => {
            let mut missing: Vec<String> = Vec::new();
            if uuid_v.is_none() {
                missing.push(uuid_name);
            }
            if hash_v.is_none() {
                missing.push(hash_name);
            }
            if url_v.is_none() {
                missing.push(url_name);
            }
            proof {
                assert(text::views(missing@) =~= missing_spec);
                assert(missing@.len() == missing_spec.len());
            }
            let present: usize = 3 - missing.len();
            Err(XattrError::Partial { path: path.to_owned(), present, missing })
        },
    }
}

/// How the system answered a request for one attribute.
#[derive(Debug, PartialEq, Eq)]
pub enum AttrReply<T> {
    /// It was done.
    Done(T),
    /// It failed, with the system's error number, if there is one, and text.
    Refused {
        /// Error number.
        errno: Option<i32>,
        /// Text.
        text: String,
    },
}

/// Outcome of reading an attribute: `ENODATA` means it is not there.
pub fn get_outcome(path: &str, reply: AttrReply<Option<Vec<u8>>>) -> (r: XattrResult<
    Option<Vec<u8>>,
>)
    ensures
        match reply {
            AttrReply::Done(v) => r == Ok::<Option<Vec<u8>>, XattrError>(v),
            AttrReply::Refused { errno, text } => if errno == Some(ENODATA) {
                r == Ok::<Option<Vec<u8>>, XattrError>(None)
            } else {
                r matches Err(e) && e@ == (XattrErrorView::Io {
                    op: "get"@,
                    path: path@,
                    source: text@,
                })
            },
        },
{
    match reply {
        AttrReply::Done(v) => Ok(v),
        AttrReply::Refused { errno: Some(61), .. } => Ok(None),
        AttrReply::Refused { text, .. } => Err(
            XattrError::Io { op: "get", path: path.to_owned(), source: text },
        ),
    }
}

/// Outcome of removing an attribute: `ENODATA` is as good as done.
pub fn remove_outcome(path: &str, reply: AttrReply<()>) -> (r: XattrResult<()>)
    ensures
        match reply {
            AttrReply::Done(_) => r is Ok,
            AttrReply::Refused { errno, text } => if errno == Some(ENODATA) {
                r is Ok
            } else {
                r matches Err(e) && e@ == (XattrErrorView::Io {
                    op: "remove"@,
                    path: path@,
                    source: text@,
                })
            },
        },
{
    match reply {
        AttrReply::Done(_) => Ok(()),
        AttrReply::Refused { errno: Some(61), .. } => Ok(()),
        AttrReply::Refused { text, .. } => Err(
            XattrError::Io { op: "remove", path: path.to_owned(), source: text },
        ),
    }
}

/// Outcome of setting an attribute.
pub fn set_outcome(path: &str, reply: AttrReply<()>) -> (r: XattrResult<()>)
    ensures
        match reply {
            AttrReply::Done(_) => r is Ok,
            AttrReply::Refused { errno, text } => r matches Err(e) && e@ == (XattrErrorView::Io {
                op: "set"@,
                path: path@,
                source: text@,
            }),
        },
{
    match reply {
        AttrReply::Done(_) => Ok(()),
        AttrReply::Refused { text, .. } => Err(
            XattrError::Io { op: "set", path: path.to_owned(), source: text },
        ),
    }
}

// ---------------------------------------------------------------------------
// Laws
// ---------------------------------------------------------------------------

/// The hex text of a hash decodes to the hash.
pub proof fn lemma_hash_round_trip(h: Seq<u8>)
    requires
        h.len() == 32,
    ensures
        hash_value(vstd::utf8::encode_utf8(backend::bytes_hex(h))) == Ok::<Seq<u8>, Seq<char>>(h),
{
    let s = backend::bytes_hex(h);
    backend::lemma_bytes_hex(h);
    assert(vstd::utf8::is_ascii_chars(s));
    vstd::utf8::is_ascii_chars_encode_utf8(s);
    vstd::utf8::encode_utf8_valid_utf8(s);
    let raw = vstd::utf8::encode_utf8(s);
    assert(raw.len() == 64);
    assert forall|i: int| 0 <= i < 32 implies pair_value(raw[2 * i], raw[2 * i + 1]) == Some(
        #[trigger] h[i],
    ) by {
        let b = h[i];
        assert(s[2 * i] == text::digit_char(b as int / 16));
        assert(s[2 * i + 1] == text::digit_char(b as int % 16));
        assert(raw[2 * i] == s[2 * i] as u8);
        assert(raw[2 * i + 1] == s[2 * i + 1] as u8);
        text::lemma_digit_nibble(b as int / 16);
        text::lemma_digit_nibble(b as int % 16);
    }
    lemma_no_bad(raw, h, 0);
    assert(Seq::new(32, |i: int| pair_value(raw[2 * i], raw[2 * i + 1])->0) =~= h);
}

/// No pair of a hash's hex text is bad.
proof fn lemma_no_bad(raw: Seq<u8>, h: Seq<u8>, i: int)
    requires
        h.len() == 32,
        0 <= i <= 32,
        forall|j: int|
            0 <= j < 32 ==> pair_value(raw[2 * j], raw[2 * j + 1]) == Some(#[trigger] h[j]),
    ensures
        first_bad(raw, i) == 32,
    decreases 32 - i,
{
    if i < 32 {
        assert(pair_value(raw[2 * i], raw[2 * i + 1]) == Some(h[i]));
        lemma_no_bad(raw, h, i + 1);
    }
}

/// A value holds a hash exactly if it is 64 hex digits, and the hash is then the
/// bytes that the pairs of digits stand for.
pub proof fn lemma_hash_is_hex(raw: Seq<u8>)
    ensures
        hash_value(raw) is Ok <==> {
            &&& raw.len() == 64
            &&& forall|i: int| 0 <= i < 64 ==> text::nibble(#[trigger] raw[i]) is Some
        },
        hash_value(raw) matches Ok(h) ==> {
            &&& h.len() == 32
            &&& forall|i: int|
                0 <= i < 32 ==> #[trigger] h[i] == 16 * text::nibble(raw[2 * i])->0 + text::nibble(
                    raw[2 * i + 1],
                )->0
        },
{
    if raw.len() == 64 {
        lemma_first_bad(raw, 0);
        if forall|i: int| 0 <= i < 64 ==> text::nibble(#[trigger] raw[i]) is Some {
            let s = Seq::new(64, |i: int| raw[i] as char);
            assert forall|i: int| 0 <= i < 64 implies raw[i] < 128 by {
                assert(text::nibble(raw[i]) is Some);
            }
            assert(vstd::utf8::is_ascii_chars(s));
            vstd::utf8::is_ascii_chars_encode_utf8(s);
            assert(vstd::utf8::encode_utf8(s) =~= raw);
            vstd::utf8::encode_utf8_valid_utf8(s);
        } else if first_bad(raw, 0) == 32 {
            assert forall|i: int| 0 <= i < 64 implies text::nibble(#[trigger] raw[i]) is Some by {
                assert(pair_value(raw[2 * (i / 2)], raw[2 * (i / 2) + 1]) is Some);
            }
        }
    }
}

/// No pair is bad exactly if all are good.
proof fn lemma_first_bad(raw: Seq<u8>, i: int)
    requires
        0 <= i <= 32,
        raw.len() == 64,
    ensures
        i <= first_bad(raw, i) <= 32,
        first_bad(raw, i) == 32 <==> forall|j: int|
            i <= j < 32 ==> pair_value(#[trigger] raw[2 * j], raw[2 * j + 1]) is Some,
    decreases 32 - i,
{
    if i < 32 {
        lemma_first_bad(raw, i + 1);
        if pair_value(raw[2 * i], raw[2 * i + 1]) is Some {
            assert forall|j: int|
                i <= j < 32 && first_bad(raw, i + 1) == 32 implies pair_value(
                #[trigger] raw[2 * j],
                raw[2 * j + 1],
            ) is Some by {
                if j > i {
                    assert(pair_value(raw[2 * j], raw[2 * j + 1]) is Some);
                }
            }
        }
    }
}

/// Reading what was written gives back the same object, whatever was there
/// before.
pub proof fn lemma_write_then_read(
    path: Seq<char>,
    m: Attrs,
    ns: XattrNamespace,
    obj: BackendObjectView,
)
    requires
        obj.hash.len() == 32,
    ensures
        stored(path, written(m, ns, obj), ns) == Ok::<Option<BackendObjectView>, XattrErrorView>(
            Some(obj),
        ),
{
    lemma_names_distinct(ns, ns);
    let w = written(m, ns, obj);
    assert(missing_names(w, ns) =~= Seq::<Seq<char>>::empty());
    vstd::utf8::encode_utf8_valid_utf8(obj.uuid);
    vstd::utf8::encode_utf8_valid_utf8(obj.url);
    vstd::utf8::encode_utf8_decode_utf8(obj.uuid);
    vstd::utf8::encode_utf8_decode_utf8(obj.url);
    lemma_hash_round_trip(obj.hash);
}

/// A file whose object was cleared reads as never archived, and clearing again
/// changes nothing.
pub proof fn lemma_clear_then_read(path: Seq<char>, m: Attrs, ns: XattrNamespace)
    ensures
        stored(path, cleared(m, ns), ns) == Ok::<Option<BackendObjectView>, XattrErrorView>(None),
        cleared(cleared(m, ns), ns) == cleared(m, ns),
{
    let c = cleared(m, ns);
    assert(missing_names(c, ns).len() == 3);
    assert(cleared(c, ns) =~= c);
}

/// Writing or clearing in one namespace does not show in the other.
pub proof fn lemma_namespaces_isolated(
    path: Seq<char>,
    m: Attrs,
    ns: XattrNamespace,
    other: XattrNamespace,
    obj: BackendObjectView,
)
    requires
        ns != other,
    ensures
        stored(path, written(m, ns, obj), other) == stored(path, m, other),
        stored(path, cleared(m, ns), other) == stored(path, m, other),
{
    lemma_names_distinct(ns, other);
    lemma_names_distinct(other, ns);
    assert(missing_names(written(m, ns, obj), other) =~= missing_names(m, other));
    assert(missing_names(cleared(m, ns), other) =~= missing_names(m, other));
}

/// A file without any of the three attributes reads as never archived; a file
/// with some of them is never taken for archived.
pub proof fn lemma_partial_is_refused(path: Seq<char>, m: Attrs, ns: XattrNamespace)
    ensures
        stored(path, m, ns) == Ok::<Option<BackendObjectView>, XattrErrorView>(None) <==> {
            &&& !m.contains_key(ns.attr("lhsm_uuid"@))
            &&& !m.contains_key(ns.attr("lhsm_hash"@))
            &&& !m.contains_key(ns.attr("lhsm_url"@))
        },
        stored(path, m, ns) matches Ok(Some(_)) ==> {
            &&& m.contains_key(ns.attr("lhsm_uuid"@))
            &&& m.contains_key(ns.attr("lhsm_hash"@))
            &&& m.contains_key(ns.attr("lhsm_url"@))
        },
{
}

} // verus!
