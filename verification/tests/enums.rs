use primer::enums::{plus_one, IpAddrKind};

#[test]
fn loopback_of_both_versions() {
    assert!(matches!(IpAddrKind::loopback(4), IpAddrKind::V4(127, 0, 0, 1)));
    match IpAddrKind::loopback(6) {
        IpAddrKind::V6(text) => assert_eq!(text, "::1"),
        other => panic!("{:?}", other),
    }
}

#[test]
fn plus_one_maps_the_option() {
    assert_eq!(plus_one(Some(5)), Some(6));
    assert_eq!(plus_one(Some(-1)), Some(0));
    assert_eq!(plus_one(Some(i32::MIN)), Some(i32::MIN + 1));
    assert_eq!(plus_one(Some(i32::MAX - 1)), Some(i32::MAX));
    assert_eq!(plus_one(None), None);
}
