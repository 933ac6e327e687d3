//! Upserting one key: the put request and its response.

use vstd::prelude::*;

use crate::kv::{kv_matches_wire, KeyValue, LeaseId, WireKeyValue};

verus! {

/// Upserts `value` at `key`, optionally bound to a lease, optionally asking
/// the store to return the key's prior record.
pub struct PutRequest {
    pub key: Vec<u8>,
    pub value: Vec<u8>,
    pub lease: LeaseId,
    pub prev_kv: bool,
}

impl PutRequest {
    /// A put of `value` at `key`, with no lease and no prior-record request.
    pub fn new(key: Vec<u8>, value: Vec<u8>) -> (r: Self)
        ensures
            r.key@ == key@,
            r.value@ == value@,
            r.lease == 0,
            !r.prev_kv,
    {
        Self { key, value, lease: 0, prev_kv: false }
    }

    /// The same put, bound to the given lease; `0` means no lease.
    pub fn lease(self, lease: LeaseId) -> (r: Self)
        ensures
            r.key@ == self.key@,
            r.value@ == self.value@,
            r.lease == lease,
            r.prev_kv == self.prev_kv,
    {
        Self { key: self.key, value: self.value, lease, prev_kv: self.prev_kv }
    }

    /// The same put, stating whether the store should return the prior
    /// record of the key.
    pub fn prev_kv(self, prev_kv: bool) -> (r: Self)
        ensures
            r.key@ == self.key@,
            r.value@ == self.value@,
            r.lease == self.lease,
            r.prev_kv == prev_kv,
    {
        Self { key: self.key, value: self.value, lease: self.lease, prev_kv }
    }
}

/// Outcome of a put: the prior record of the key, when one was asked for
/// and the key existed before.
pub struct PutResponse {
    pub prev_kv: Option<KeyValue>,
}

impl PutResponse {
    /// Wraps a decoded put outcome, adopting the embedded wire record
    /// field for field.
    pub fn from_wire(prev_kv: Option<WireKeyValue>) -> (r: Self)
        ensures
            r.prev_kv is Some <==> prev_kv is Some,
            prev_kv matches Some(w) ==> (r.prev_kv matches Some(kv) && kv_matches_wire(kv, w)),
    {
        match prev_kv {
            Some(w) => Self { prev_kv: Some(KeyValue::from_wire(w)) },
            None => Self { prev_kv: None },
        }
    }
}

} // verus!
