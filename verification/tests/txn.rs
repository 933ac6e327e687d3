use etcd_kv::{
    CompareOp, CompareTarget, KeyRange, PutRequest, PutResponse, RangeRequest, RangeResponse,
    TxnCmp, TxnOp, TxnOpResponse, TxnRequest, TxnResponse, WireKeyValue,
};

fn version_txn() -> TxnRequest {
    TxnRequest::new()
        .when(TxnCmp::new(b"k".to_vec(), CompareOp::Equal, CompareTarget::Version(1)))
        .and_then(TxnOp::Put(PutRequest::new(b"k".to_vec(), b"v2".to_vec())))
        .or_else(TxnOp::Get(RangeRequest::new(KeyRange::key(b"k".to_vec()))))
}

#[test]
fn builder_accumulates_predicates_and_branches_in_order() {
    let req = version_txn();
    assert_eq!(req.compare.len(), 1);
    assert_eq!(req.compare[0].key, b"k".to_vec());
    assert_eq!(req.compare[0].op, CompareOp::Equal);
    assert!(matches!(req.compare[0].target, CompareTarget::Version(1)));
    assert_eq!(req.success.len(), 1);
    assert!(matches!(req.success[0], TxnOp::Put(_)));
    assert_eq!(req.failure.len(), 1);
    assert!(matches!(req.failure[0], TxnOp::Get(_)));
}

#[test]
fn success_branch_outcome_has_one_put_response() {
    // The store found the version equal to 1, ran the success branch, and
    // reports one response per success operation, in order.
    let resp = TxnResponse::new(true, vec![TxnOpResponse::Put(PutResponse::from_wire(None))]);
    assert!(resp.succeeded);
    assert_eq!(resp.responses.len(), 1);
    assert!(matches!(resp.responses[0], TxnOpResponse::Put(_)));
}

#[test]
fn failure_branch_outcome_has_one_get_response() {
    // The version was 2 instead: the failure branch ran, one Get-shaped
    // response comes back.
    let record = WireKeyValue {
        key: b"k".to_vec(),
        value: b"v1".to_vec(),
        create_revision: 1,
        mod_revision: 2,
        version: 2,
        lease: 0,
    };
    let resp = TxnResponse::new(
        false,
        vec![TxnOpResponse::Get(RangeResponse::from_wire(vec![record], 1, false))],
    );
    assert!(!resp.succeeded);
    assert_eq!(resp.responses.len(), 1);
    match &resp.responses[0] {
        TxnOpResponse::Get(get) => {
            assert_eq!(get.kvs.len(), 1);
            assert_eq!(get.kvs[0].version, 2);
        }
        _ => panic!("the failure branch held a Get"),
    }
}

#[test]
fn transactions_nest_without_limit() {
    let inner = version_txn();
    let outer = TxnRequest::new().and_then(TxnOp::Txn(Box::new(inner)));
    assert_eq!(outer.success.len(), 1);
    match &outer.success[0] {
        TxnOp::Txn(nested) => assert_eq!(nested.compare.len(), 1),
        _ => panic!("the success branch held a nested transaction"),
    }
    let resp = TxnResponse::new(
        true,
        vec![TxnOpResponse::Txn(Box::new(TxnResponse::new(false, Vec::new())))],
    );
    match &resp.responses[0] {
        TxnOpResponse::Txn(nested) => assert!(!nested.succeeded),
        _ => panic!("the response held a nested transaction outcome"),
    }
}

#[test]
fn empty_transaction_is_empty() {
    let req = TxnRequest::new();
    assert!(req.compare.is_empty());
    assert!(req.success.is_empty());
    assert!(req.failure.is_empty());
}
