//! The compare-and-branch transaction model.
//!
//! A transaction carries predicates and two ordered operation lists. The
//! remote store evaluates all predicates atomically as one conjunction;
//! exactly one branch then executes atomically, never part of one. The
//! client builds the shape and interprets the outcome — it evaluates
//! nothing locally.

use vstd::prelude::*;

use crate::delete::{DeleteRequest, DeleteResponse};
use crate::put::{PutRequest, PutResponse};
use crate::range::{RangeRequest, RangeResponse};

verus! {

/// How a predicate compares the chosen field against its operand.
#[derive(Clone, Copy, Debug, PartialEq, Eq)]
pub enum CompareOp {
    Equal,
    NotEqual,
    Less,
    Greater,
}

/// Which field of a key's record a predicate reads, with the operand it is
/// compared against.
pub enum CompareTarget {
    Value(Vec<u8>),
    Version(i64),
    CreateRevision(i64),
    ModRevision(i64),
    Lease(i64),
}

/// One predicate of a transaction: a field of `key`'s record, compared by
/// `op` against the operand carried in `target`.
pub struct TxnCmp {
    pub key: Vec<u8>,
    pub op: CompareOp,
    pub target: CompareTarget,
}

impl TxnCmp {
    pub fn new(key: Vec<u8>, op: CompareOp, target: CompareTarget) -> (r: Self)
        ensures
            r.key@ == key@,
            r.op == op,
            r.target == target,
    {
        Self { key, op, target }
    }
}

/// One operation of a transaction branch. A branch may hold a whole nested
/// transaction, heap-indirect so nesting depth stays unbounded while the
/// variant stays bounded in size.
pub enum TxnOp {
    Put(PutRequest),
    Get(RangeRequest),
    Delete(DeleteRequest),
    Txn(Box<TxnRequest>),
}

/// A compare-and-branch transaction: zero or more predicates, evaluated as
/// one conjunction, and the two branches. When every predicate holds the
/// success branch executes, otherwise the failure branch — atomically and
/// never partially, one response per operation in branch order.
pub struct TxnRequest {
    pub compare: Vec<TxnCmp>,
    pub success: Vec<TxnOp>,
    pub failure: Vec<TxnOp>,
}

impl TxnRequest {
    /// A transaction with no predicates and empty branches. With nothing
    /// added, every predicate holds vacuously and the empty success branch
    /// executes.
    pub fn new() -> (r: Self)
        ensures
            r.compare@ == Seq::<TxnCmp>::empty(),
            r.success@ == Seq::<TxnOp>::empty(),
            r.failure@ == Seq::<TxnOp>::empty(),
    {
        let r = Self { compare: Vec::new(), success: Vec::new(), failure: Vec::new() };
        proof {
            assert(r.compare@ =~= Seq::<TxnCmp>::empty());
            assert(r.success@ =~= Seq::<TxnOp>::empty());
            assert(r.failure@ =~= Seq::<TxnOp>::empty());
        }
        r
    }

    /// Adds one predicate to the conjunction.
    pub fn when(self, cmp: TxnCmp) -> (r: Self)
        ensures
            r.compare@ == self.compare@.push(cmp),
            r.success@ == self.success@,
            r.failure@ == self.failure@,
    {
        let mut compare = self.compare;
        compare.push(cmp);
        Self { compare, success: self.success, failure: self.failure }
    }

    /// Appends an operation to the branch that executes when every
    /// predicate holds.
    pub fn and_then(self, op: TxnOp) -> (r: Self)
        ensures
            r.compare@ == self.compare@,
            r.success@ == self.success@.push(op),
            r.failure@ == self.failure@,
    {
        let mut success = self.success;
        success.push(op);
        Self { compare: self.compare, success, failure: self.failure }
    }

    /// Appends an operation to the branch that executes when some predicate
    /// fails.
    pub fn or_else(self, op: TxnOp) -> (r: Self)
        ensures
            r.compare@ == self.compare@,
            r.success@ == self.success@,
            r.failure@ == self.failure@.push(op),
    {
        let mut failure = self.failure;
        failure.push(op);
        Self { compare: self.compare, success: self.success, failure }
    }
}

/// Outcome of one branch operation, mirroring the shape of whichever
/// operation kind produced it — recursively for a nested transaction.
pub enum TxnOpResponse {
    Put(PutResponse),
    Get(RangeResponse),
    Delete(DeleteResponse),
    Txn(Box<TxnResponse>),
}

/// Outcome of a transaction: which branch executed, and one response per
/// operation of that branch, in branch order — never a partial mix.
pub struct TxnResponse {
    pub succeeded: bool,
    pub responses: Vec<TxnOpResponse>,
}

impl TxnResponse {
    /// Wraps a decoded transaction outcome, keeping the branch verdict and
    /// the per-operation responses in order.
    pub fn new(succeeded: bool, responses: Vec<TxnOpResponse>) -> (r: Self)
        ensures
            r.succeeded == succeeded,
            r.responses@ == responses@,
    {
        Self { succeeded, responses }
    }
}

} // verus!
