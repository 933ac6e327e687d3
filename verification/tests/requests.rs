use etcd_kv::{
    CompactRequest, DeleteRequest, DeleteResponse, KeyRange, PutRequest, PutResponse,
    RangeRequest, RangeResponse, SortOrder, SortTarget, WireKeyValue,
};

fn wire(key: &[u8], value: &[u8]) -> WireKeyValue {
    WireKeyValue {
        key: key.to_vec(),
        value: value.to_vec(),
        create_revision: 3,
        mod_revision: 4,
        version: 1,
        lease: 0,
    }
}

#[test]
fn put_request_builder() {
    let req = PutRequest::new(b"k".to_vec(), b"v".to_vec());
    assert_eq!(req.key, b"k".to_vec());
    assert_eq!(req.value, b"v".to_vec());
    assert_eq!(req.lease, 0);
    assert!(!req.prev_kv);
    let req = req.lease(42).prev_kv(true);
    assert_eq!(req.lease, 42);
    assert!(req.prev_kv);
    assert_eq!(req.key, b"k".to_vec());
}

#[test]
fn range_request_from_key_range() {
    let req: RangeRequest = KeyRange::key(b"k".to_vec()).into();
    assert_eq!(req.key_range.key, b"k".to_vec());
    assert!(req.key_range.range_end.is_empty());
    assert_eq!(req.limit, 0);
    assert!(req.sort_order.is_none());
    assert!(req.sort_target.is_none());
}

#[test]
fn range_request_builder() {
    let req = RangeRequest::new(KeyRange::prefix(b"p".to_vec()))
        .limit(10)
        .sort(SortTarget::ModRevision, SortOrder::Descend);
    assert_eq!(req.limit, 10);
    assert_eq!(req.sort_order, Some(SortOrder::Descend));
    assert_eq!(req.sort_target, Some(SortTarget::ModRevision));
    assert_eq!(req.key_range.key, b"p".to_vec());
    assert_eq!(req.key_range.range_end, b"q".to_vec());
}

#[test]
fn delete_request_from_key_range() {
    let req: DeleteRequest = KeyRange::all().into();
    assert_eq!(req.key_range.key, vec![0x00]);
    assert!(!req.prev_kv);
    let req = req.prev_kv(true);
    assert!(req.prev_kv);
}

#[test]
fn compact_request_carries_the_revision() {
    let req = CompactRequest::new(100);
    assert_eq!(req.revision, 100);
}

#[test]
fn put_response_adopts_the_prior_record() {
    let resp = PutResponse::from_wire(Some(wire(b"k", b"old")));
    let prev = resp.prev_kv.expect("a prior record was supplied");
    assert_eq!(prev.key, b"k".to_vec());
    assert_eq!(prev.value, b"old".to_vec());
    assert_eq!(prev.create_revision, 3);
    assert_eq!(prev.mod_revision, 4);

    let resp = PutResponse::from_wire(None);
    assert!(resp.prev_kv.is_none());
}

#[test]
fn range_response_adopts_records_count_and_truncation() {
    let resp = RangeResponse::from_wire(vec![wire(b"a", b"1"), wire(b"b", b"2")], 7, true);
    assert_eq!(resp.kvs.len(), 2);
    assert_eq!(resp.kvs[0].key, b"a".to_vec());
    assert_eq!(resp.kvs[1].value, b"2".to_vec());
    assert_eq!(resp.count, 7);
    assert!(resp.more);
}

#[test]
fn delete_response_adopts_count_and_prior_records() {
    let resp = DeleteResponse::from_wire(2, vec![wire(b"a", b"1"), wire(b"b", b"2")]);
    assert_eq!(resp.deleted, 2);
    assert_eq!(resp.prev_kvs.len(), 2);
    assert_eq!(resp.prev_kvs[0].key, b"a".to_vec());
    assert_eq!(resp.prev_kvs[1].key, b"b".to_vec());
}
