//! Reading keys: the range (get) request and its response.

use vstd::prelude::*;

use crate::kv::{kv_matches_wire, KeyRange, KeyValue, WireKeyValue};
use crate::kv::kvs_from_wire;

verus! {

/// Direction in which the store orders a listing.
#[derive(Clone, Copy, Debug, PartialEq, Eq)]
pub enum SortOrder {
    Ascend,
    Descend,
}

/// Field by which the store orders a listing.
#[derive(Clone, Copy, Debug, PartialEq, Eq)]
pub enum SortTarget {
    Key,
    Version,
    CreateRevision,
    ModRevision,
    Value,
}

/// Reads the keys a [`KeyRange`] addresses, with optional sorting and an
/// optional result limit; `0` means no limit.
pub struct RangeRequest {
    pub key_range: KeyRange,
    pub limit: i64,
    pub sort_order: Option<SortOrder>,
    pub sort_target: Option<SortTarget>,
}

impl RangeRequest {
    /// A read of everything `key_range` addresses, unlimited and in the
    /// store's key order.
    pub fn new(key_range: KeyRange) -> (r: Self)
        ensures
            r.key_range == key_range,
            r.limit == 0,
            r.sort_order is None,
            r.sort_target is None,
    {
        Self { key_range, limit: 0, sort_order: None, sort_target: None }
    }

    /// The same read, returning at most `limit` records; `0` means no limit.
    pub fn limit(self, limit: i64) -> (r: Self)
        ensures
            r.key_range == self.key_range,
            r.limit == limit,
            r.sort_order == self.sort_order,
            r.sort_target == self.sort_target,
    {
        Self {
            key_range: self.key_range,
            limit,
            sort_order: self.sort_order,
            sort_target: self.sort_target,
        }
    }

    /// The same read, ordered by `target` in direction `order`.
    pub fn sort(self, target: SortTarget, order: SortOrder) -> (r: Self)
        ensures
            r.key_range == self.key_range,
            r.limit == self.limit,
            r.sort_order == Some(order),
            r.sort_target == Some(target),
    {
        Self {
            key_range: self.key_range,
            limit: self.limit,
            sort_order: Some(order),
            sort_target: Some(target),
        }
    }
}

impl From<KeyRange> for RangeRequest {
    /// The canonical request a bare range converges to.
    fn from(key_range: KeyRange) -> (r: Self) {
        Self::new(key_range)
    }
}

impl vstd::std_specs::convert::FromSpecImpl<KeyRange> for RangeRequest {
    open spec fn obeys_from_spec() -> bool {
        true
    }

    open spec fn from_spec(key_range: KeyRange) -> Self {
        RangeRequest { key_range, limit: 0, sort_order: None, sort_target: None }
    }
}

/// Outcome of a read: the matching records in the requested order, the
/// total number of keys the range matched, and whether a limit cut the
/// listing short.
pub struct RangeResponse {
    pub kvs: Vec<KeyValue>,
    pub count: i64,
    pub more: bool,
}

impl RangeResponse {
    /// Wraps a decoded range outcome, adopting every embedded wire record
    /// field for field and in order.
    pub fn from_wire(kvs: Vec<WireKeyValue>, count: i64, more: bool) -> (r: Self)
        ensures
            r.kvs@.len() == kvs@.len(),
            forall|i: int| 0 <= i < kvs@.len() ==> kv_matches_wire(r.kvs@[i], kvs@[i]),
            r.count == count,
            r.more == more,
    {
        Self { kvs: kvs_from_wire(kvs), count, more }
    }
}

} // verus!
