use etcd_kv::KeyRange;

#[test]
fn prefix_of_empty_is_all_keys() {
    let by_prefix = KeyRange::prefix(Vec::new());
    let all = KeyRange::all();
    assert_eq!(by_prefix, all);
}

#[test]
fn prefix_increments_last_byte() {
    let r = KeyRange::prefix(b"abc".to_vec());
    assert_eq!(r.key, b"abc".to_vec());
    assert_eq!(r.range_end, b"abd".to_vec());
}

#[test]
fn prefix_carries_past_trailing_ff() {
    let mut p = b"ab".to_vec();
    p.push(0xff);
    let r = KeyRange::prefix(p.clone());
    assert_eq!(r.key, p);
    assert_eq!(r.range_end, b"ac".to_vec());
}

#[test]
fn prefix_of_all_ff_gets_open_upper_end() {
    let r = KeyRange::prefix(vec![0xff, 0xff]);
    assert_eq!(r.key, vec![0xff, 0xff]);
    assert_eq!(r.range_end, vec![0x00]);
    let r = KeyRange::prefix(vec![0xff]);
    assert_eq!(r.key, vec![0xff]);
    assert_eq!(r.range_end, vec![0x00]);
}

#[test]
fn point_range_has_empty_end() {
    let r = KeyRange::key(b"some-key".to_vec());
    assert_eq!(r.key, b"some-key".to_vec());
    assert!(r.range_end.is_empty());
}

#[test]
fn all_keys_is_the_zero_sentinel() {
    let r = KeyRange::all();
    assert_eq!(r.key, vec![0x00]);
    assert_eq!(r.range_end, vec![0x00]);
}

#[test]
fn explicit_range_keeps_both_bounds_verbatim() {
    let r = KeyRange::range(b"begin".to_vec(), b"finish".to_vec());
    assert_eq!(r.key, b"begin".to_vec());
    assert_eq!(r.range_end, b"finish".to_vec());
}

#[test]
fn prefixed_keys_sit_below_the_boundary_and_nothing_tighter_works() {
    // A concrete check of the boundary law: under lexicographic byte order,
    // every key beginning with the prefix lies strictly below range_end,
    // and range_end is the least such bound.
    let r = KeyRange::prefix(b"ab".to_vec());
    assert_eq!(r.range_end, b"ac".to_vec());
    assert!(b"ab".to_vec() < r.range_end);
    assert!(b"abz".to_vec() < r.range_end);
    let mut high = b"ab".to_vec();
    high.extend(std::iter::repeat(0xffu8).take(8));
    assert!(high < r.range_end);
    // The bound is tight: one byte lower at its last position would wrongly
    // exclude keys that carry the prefix.
    let mut tighter = r.range_end.clone();
    let last = tighter.len() - 1;
    tighter[last] -= 1;
    assert!(!(b"abz".to_vec() < tighter));
}
