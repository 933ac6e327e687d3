//! The versioned key-value record and the key-range addressing algebra.

use vstd::prelude::*;

use crate::order::{all_ff, has_prefix, lex_le, lex_lt, prefix_end};
use crate::order::{
    lemma_between_prefix_end, lemma_ge_all_ff_has_prefix, lemma_has_prefix_le,
    lemma_prefix_end_covers_prefix, lemma_prefix_end_empty_iff_all_ff,
    lemma_prefix_end_last_nonzero, lemma_prefix_end_step,
};

verus! {

/// Opaque identifier of a lease in the remote store; `0` means "no lease".
pub type LeaseId = i64;

/// A key-value record as the transport decodes it off the wire, before it
/// is adopted into the client's data model.
pub struct WireKeyValue {
    pub key: Vec<u8>,
    pub value: Vec<u8>,
    pub create_revision: i64,
    pub mod_revision: i64,
    pub version: i64,
    pub lease: LeaseId,
}

/// A single versioned record of the store.
///
/// Built only by converting a wire-level record; immutable once built.
#[derive(Clone, Debug, Default, PartialEq)]
pub struct KeyValue {
    pub key: Vec<u8>,
    pub value: Vec<u8>,
    pub create_revision: i64,
    pub mod_revision: i64,
    pub version: i64,
    pub lease: LeaseId,
}

/// Field-for-field agreement between a record and the wire form it came from.
pub open spec fn kv_matches_wire(kv: KeyValue, w: WireKeyValue) -> bool {
    &&& kv.key@ == w.key@
    &&& kv.value@ == w.value@
    &&& kv.create_revision == w.create_revision
    &&& kv.mod_revision == w.mod_revision
    &&& kv.version == w.version
    &&& kv.lease == w.lease
}

impl KeyValue {
    /// A record is well formed when no mutation precedes its creation.
    pub open spec fn well_formed(&self) -> bool {
        self.create_revision <= self.mod_revision
    }

    /// Adopts a decoded wire record, keeping every field as it came.
    pub fn from_wire(w: WireKeyValue) -> (r: Self)
        ensures
            kv_matches_wire(r, w),
            r.well_formed() <==> w.create_revision <= w.mod_revision,
    {
        Self {
            key: w.key,
            value: w.value,
            create_revision: w.create_revision,
            mod_revision: w.mod_revision,
            version: w.version,
            lease: w.lease,
        }
    }

    /// The key as text. The key must hold valid UTF-8: on other bytes this
    /// accessor aborts the process rather than answer lossily.
    pub fn key_str(&self) -> (r: &str)
        requires
            vstd::utf8::valid_utf8(self.key@),
        ensures
            r@ == vstd::utf8::decode_utf8(self.key@),
    {
        match bytes_as_str(self.key.as_slice()) {
            Some(s) => s,
            None => vstd::pervasive::unreached(),
        }
    }

    /// The value as text. The value must hold valid UTF-8: on other bytes
    /// this accessor aborts the process rather than answer lossily.
    pub fn value_str(&self) -> (r: &str)
        requires
            vstd::utf8::valid_utf8(self.value@),
        ensures
            r@ == vstd::utf8::decode_utf8(self.value@),
    {
        match bytes_as_str(self.value.as_slice()) {
            Some(s) => s,
            None => vstd::pervasive::unreached(),
        }
    }
}

impl From<WireKeyValue> for KeyValue {
    /// The `From` form of [`KeyValue::from_wire`].
    fn from(w: WireKeyValue) -> (r: Self) {
        Self {
            key: w.key,
            value: w.value,
            create_revision: w.create_revision,
            mod_revision: w.mod_revision,
            version: w.version,
            lease: w.lease,
        }
    }
}

impl vstd::std_specs::convert::FromSpecImpl<WireKeyValue> for KeyValue {
    open spec fn obeys_from_spec() -> bool {
        true
    }

    open spec fn from_spec(w: WireKeyValue) -> KeyValue {
        KeyValue {
            key: w.key,
            value: w.value,
            create_revision: w.create_revision,
            mod_revision: w.mod_revision,
            version: w.version,
            lease: w.lease,
        }
    }
}

/// Adopts a whole listing of decoded wire records, keeping their order and
/// every field of each.
pub fn kvs_from_wire(kvs: Vec<WireKeyValue>) -> (r: Vec<KeyValue>)
    ensures
        r@.len() == kvs@.len(),
        forall|i: int| 0 <= i < kvs@.len() ==> kv_matches_wire(r@[i], kvs@[i]),
{
    let ghost orig = kvs@;
    let mut src = kvs;
    let mut out: Vec<KeyValue> = Vec::new();
    while src.len() > 0
        invariant
            out@.len() + src@.len() == orig.len(),
            src@ == orig.skip(out@.len() as int),
            forall|i: int| 0 <= i < out@.len() ==> kv_matches_wire(out@[i], orig[i]),
        decreases src.len(),
    {
        let ghost done = out@.len() as int;
        let w = src.remove(0);
        proof {
            assert(w == orig.skip(done)[0]);
            assert(orig.skip(done)[0] == orig[done]);
        }
        out.push(KeyValue::from_wire(w));
        proof {
            assert(src@ =~= orig.skip(out@.len() as int));
        }
    }
    out
}

/// Relies on std::str::from_utf8: it returns `Ok` exactly when the bytes are
/// valid UTF-8, and then views those same bytes as text.
#[verifier::external_body]
fn bytes_as_str(b: &[u8]) -> (r: Option<&str>)
    ensures
        r is Some <==> vstd::utf8::valid_utf8(b@),
        r matches Some(s) ==> s@ == vstd::utf8::decode_utf8(b@),
{
    std::str::from_utf8(b).ok()
}

/// Which keys a request addresses, as `[key, range_end)` boundaries.
///
/// An empty `range_end` addresses exactly `key`; `key == range_end == [0x00]`
/// is the reserved sentinel for "all keys"; a `range_end` of `[0x00]` beside
/// any other key is the reserved sentinel for "no upper bound"; anything else
/// is the half-open interval under lexicographic byte order.
#[derive(Clone, Debug, Eq, Hash, PartialEq)]
pub struct KeyRange {
    pub key: Vec<u8>,
    pub range_end: Vec<u8>,
}

impl KeyRange {
    /// The set of keys this range addresses, under the sentinel reading
    /// given above.
    pub open spec fn addresses(&self, k: Seq<u8>) -> bool {
        if self.range_end@.len() == 0 {
            k == self.key@
        } else if self.key@ == seq![0u8] && self.range_end@ == seq![0u8] {
            true
        } else if self.range_end@ == seq![0u8] {
            lex_le(self.key@, k)
        } else {
            lex_le(self.key@, k) && lex_lt(k, self.range_end@)
        }
    }

    /// Describes the half-open range `[key, range_end)`, both boundaries
    /// taken verbatim from the caller.
    pub fn range(key: Vec<u8>, range_end: Vec<u8>) -> (r: Self)
        ensures
            r.key@ == key@,
            r.range_end@ == range_end@,
    {
        Self { key, range_end }
    }

    /// Describes exactly the one key `key`.
    pub fn key(key: Vec<u8>) -> (r: Self)
        ensures
            r.key@ == key@,
            r.range_end@ == Seq::<u8>::empty(),
            forall|k: Seq<u8>| r.addresses(k) <==> k == key@,
    {
        let r = Self { key, range_end: Vec::new() };
        proof {
            assert(r.range_end@ =~= Seq::<u8>::empty());
        }
        r
    }

    /// Describes every key, by the reserved one-byte sentinel on both
    /// boundaries.
    pub fn all() -> (r: Self)
        ensures
            r.key@ == seq![0u8],
            r.range_end@ == seq![0u8],
            forall|k: Seq<u8>| r.addresses(k),
    {
        let mut key: Vec<u8> = Vec::new();
        key.push(0);
        let mut range_end: Vec<u8> = Vec::new();
        range_end.push(0);
        let r = Self { key, range_end };
        proof {
            assert(r.key@ =~= seq![0u8]);
            assert(r.range_end@ =~= seq![0u8]);
        }
        r
    }

    /// Describes every key that begins with `prefix`.
    ///
    /// An empty prefix constrains nothing and yields [`KeyRange::all`]. The
    /// upper boundary drops trailing `0xff` bytes and increments the last
    /// remaining byte, the least sequence above everything prefixed; a
    /// prefix made only of `0xff` bytes has no such sequence and yields the
    /// "no upper bound" sentinel `[0x00]` instead.
    pub fn prefix(prefix: Vec<u8>) -> (r: Self)
        ensures
            r.key@ == (if prefix@.len() == 0 { seq![0u8] } else { prefix@ }),
            r.range_end@ == (if prefix_end(prefix@).len() == 0 {
                seq![0u8]
            } else {
                prefix_end(prefix@)
            }),
            forall|k: Seq<u8>| r.addresses(k) <==> has_prefix(prefix@, k),
    {
        if prefix.len() == 0 {
            let r = Self::all();
            proof {
                assert forall|k: Seq<u8>| r.addresses(k) <==> has_prefix(prefix@, k) by {
                    assert(k.take(0) =~= prefix@);
                }
            }
            return r;
        }
        let ghost p = prefix@;
        let mut end: Vec<u8> = Vec::new();
        let mut j: usize = 0;
        while j < prefix.len()
            invariant
                j <= prefix.len(),
                end@ == prefix@.take(j as int),
            decreases prefix.len() - j,
        {
            end.push(prefix[j]);
            j = j + 1;
            proof {
                assert(end@ =~= prefix@.take(j as int));
            }
        }
        proof {
            assert(end@ =~= p);
        }
        let mut i = end.len();
        while i > 0
            invariant
                i <= end.len(),
                end@ == p,
                p == prefix@,
                p.len() > 0,
                forall|jj: int| i <= jj < p.len() ==> p[jj] == 0xff,
            decreases i,
        {
            i = i - 1;
            let b = end[i];
            if b < 0xff {
                end.set(i, b + 1);
                end.truncate(i + 1);
                let r = Self { key: prefix, range_end: end };
                proof {
                    assert(!all_ff(p)) by {
                        assert(p[i as int] != 0xff);
                    }
                    lemma_prefix_end_step(p, i as int);
                    assert(r.range_end@ =~= p.take(i as int).push((p[i as int] + 1) as u8));
                    assert(prefix_end(p).len() == i + 1);
                    lemma_prefix_addresses_bounded(r, p);
                }
                return r;
            }
        }
        // Every byte of the prefix is 0xff: no finite upper boundary exists,
        // so fall back to the reserved "no upper bound" sentinel.
        let mut open_end: Vec<u8> = Vec::new();
        open_end.push(0);
        let r = Self { key: prefix, range_end: open_end };
        proof {
            assert(all_ff(p));
            lemma_prefix_end_empty_iff_all_ff(p);
            assert(r.range_end@ =~= seq![0u8]);
            lemma_prefix_addresses_unbounded(r, p);
        }
        r
    }
}

/// For a prefix that is not all `0xff`, the computed boundaries address
/// exactly the keys that begin with the prefix.
proof fn lemma_prefix_addresses_bounded(r: KeyRange, p: Seq<u8>)
    requires
        p.len() > 0,
        !all_ff(p),
        r.key@ == p,
        r.range_end@ == prefix_end(p),
    ensures
        forall|k: Seq<u8>| r.addresses(k) <==> has_prefix(p, k),
{
    lemma_prefix_end_empty_iff_all_ff(p);
    lemma_prefix_end_last_nonzero(p);
    assert(r.range_end@ != seq![0u8]) by {
        if r.range_end@ == seq![0u8] {
            assert(r.range_end@.last() == 0);
        }
    }
    assert forall|k: Seq<u8>| r.addresses(k) <==> has_prefix(p, k) by {
        if has_prefix(p, k) {
            lemma_has_prefix_le(p, k);
            lemma_prefix_end_covers_prefix(p, k);
            assert(r.addresses(k));
        }
        if r.addresses(k) && !has_prefix(p, k) {
            lemma_between_prefix_end(p, k);
        }
    }
}

/// For an all-`0xff` prefix under the "no upper bound" sentinel, the range
/// addresses exactly the keys that begin with the prefix.
proof fn lemma_prefix_addresses_unbounded(r: KeyRange, p: Seq<u8>)
    requires
        p.len() > 0,
        all_ff(p),
        r.key@ == p,
        r.range_end@ == seq![0u8],
    ensures
        forall|k: Seq<u8>| r.addresses(k) <==> has_prefix(p, k),
{
    assert(p[0] == 0xff);
    assert(r.key@ != seq![0u8]);
    assert forall|k: Seq<u8>| r.addresses(k) <==> has_prefix(p, k) by {
        if has_prefix(p, k) {
            lemma_has_prefix_le(p, k);
        }
        if lex_le(p, k) {
            lemma_ge_all_ff_has_prefix(p, k);
        }
    }
}

} // verus!
