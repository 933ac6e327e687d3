use etcd_kv::{kvs_from_wire, KeyValue, WireKeyValue};

fn wire(key: &[u8], value: &[u8]) -> WireKeyValue {
    WireKeyValue {
        key: key.to_vec(),
        value: value.to_vec(),
        create_revision: 1,
        mod_revision: 1,
        version: 1,
        lease: 0,
    }
}

#[test]
fn wire_record_round_trip() {
    let w = WireKeyValue {
        key: b"a".to_vec(),
        value: b"1".to_vec(),
        create_revision: 5,
        mod_revision: 7,
        version: 2,
        lease: 99,
    };
    let kv = KeyValue::from_wire(w);
    assert_eq!(kv.key, b"a".to_vec());
    assert_eq!(kv.value, b"1".to_vec());
    assert_eq!(kv.create_revision, 5);
    assert_eq!(kv.mod_revision, 7);
    assert_eq!(kv.version, 2);
    assert_eq!(kv.lease, 99);
}

#[test]
fn text_accessors_return_the_decoded_text() {
    let w = WireKeyValue {
        key: "caf\u{e9}".as_bytes().to_vec(),
        value: "\u{fc}ber".as_bytes().to_vec(),
        create_revision: 1,
        mod_revision: 1,
        version: 1,
        lease: 0,
    };
    assert_eq!(w.key.len(), 5);
    let kv = KeyValue::from_wire(w);
    assert_eq!(kv.key_str(), "caf\u{e9}");
    assert_eq!(kv.value_str(), "\u{fc}ber");
}

#[test]
fn listing_conversion_keeps_order_and_fields() {
    let kvs = kvs_from_wire(vec![wire(b"k1", b"v1"), wire(b"k2", b"v2"), wire(b"k3", b"v3")]);
    assert_eq!(kvs.len(), 3);
    assert_eq!(kvs[0].key, b"k1".to_vec());
    assert_eq!(kvs[1].key, b"k2".to_vec());
    assert_eq!(kvs[2].key, b"k3".to_vec());
    assert_eq!(kvs[2].value, b"v3".to_vec());
}

#[test]
fn empty_listing_converts_to_empty() {
    assert!(kvs_from_wire(Vec::new()).is_empty());
}

#[test]
fn from_impl_matches_from_wire() {
    let kv: KeyValue = wire(b"k", b"v").into();
    assert_eq!(kv, KeyValue::from_wire(wire(b"k", b"v")));
    assert_eq!(kv.key, b"k".to_vec());
    assert_eq!(kv.create_revision, 1);
}
