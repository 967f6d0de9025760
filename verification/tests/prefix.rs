use fedimint_rocksdb::key_order::{comes_before, starts_with};
use fedimint_rocksdb::prefix::next_prefix;

#[test]
fn test_next_prefix() {
    // Although this is the general case of N bytes, prefixes mostly have one.
    assert_eq!(next_prefix(&[1, 2, 3]).unwrap(), vec![1, 2, 4]);
    assert_eq!(next_prefix(&[1, 2, 254]).unwrap(), vec![1, 2, 255]);
    assert_eq!(next_prefix(&[1, 2, 255]).unwrap(), vec![1, 3, 0]);
    assert_eq!(next_prefix(&[1, 255, 255]).unwrap(), vec![2, 0, 0]);
    // this is a "max" prefix
    assert!(next_prefix(&[255, 255, 255]).is_none());
    // these are the common case
    assert_eq!(next_prefix(&[0]).unwrap(), vec![1]);
    assert_eq!(next_prefix(&[254]).unwrap(), vec![255]);
    assert!(next_prefix(&[255]).is_none()); // this is a "max" prefix
}

#[test]
fn the_empty_prefix_has_no_next() {
    assert!(next_prefix(&[]).is_none());
}

#[test]
fn every_prefixed_key_comes_before_the_next_prefix() {
    let keys: [&[u8]; 4] = [&[1, 255], &[1, 255, 0], &[1, 255, 255], &[1, 255, 255, 255, 255]];
    let next = next_prefix(&[1, 255]).unwrap();
    assert_eq!(next, vec![2, 0]);
    for key in keys {
        assert!(starts_with(key, &[1, 255]));
        assert!(comes_before(key, &next));
        assert!(!comes_before(&next, key));
    }
    assert!(!starts_with(&next, &[1, 255]));
}

#[test]
fn keys_are_ordered_as_slices_are() {
    let keys: [&[u8]; 7] = [&[], &[0], &[0, 0], &[0, 1], &[1], &[1, 255], &[255]];
    for a in keys {
        for b in keys {
            assert_eq!(comes_before(a, b), a < b, "{a:?} {b:?}");
            assert_eq!(starts_with(a, b), a.starts_with(b), "{a:?} {b:?}");
        }
    }
}
