//! Client-side vocabulary for addressing and mutating keys in a
//! revision-versioned key-value store.
//!
//! The crate covers three things:
//! - the key-range addressing algebra ([`KeyRange`]), which derives
//!   `[key, range_end)` byte boundaries for point, ranged, prefix and
//!   all-keys addressing;
//! - the request/response data model (put, range, delete, compact), built
//!   from a [`KeyRange`] plus operation-specific fields;
//! - the compare-and-branch transaction model ([`TxnRequest`] and friends),
//!   recursively nestable.
//!
//! Network transport, wire encoding and retry policy are collaborators and
//! stay outside this crate; everything here is a plain immutable value.

mod compact;
mod delete;
mod kv;
mod order;
mod put;
mod range;
mod txn;

pub use compact::{CompactRequest, CompactResponse};
pub use delete::{DeleteRequest, DeleteResponse};
pub use kv::{KeyRange, KeyValue, LeaseId, WireKeyValue};
pub use kv::{kv_matches_wire, kvs_from_wire};
pub use order::{all_ff, has_prefix, lex_le, lex_lt, prefix_end};
pub use order::{lemma_prefix_end_covers_prefix, lemma_prefix_end_least_bound};
pub use put::{PutRequest, PutResponse};
pub use range::{RangeRequest, RangeResponse, SortOrder, SortTarget};
pub use txn::{CompareOp, CompareTarget, TxnCmp, TxnOp, TxnOpResponse, TxnRequest, TxnResponse};
