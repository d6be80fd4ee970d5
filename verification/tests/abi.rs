use xrpl_hooks::abi::buffers_overlap;
use xrpl_hooks::abi::range_from_location;

#[test]
fn location_unpacks_offset_and_length() {
    assert_eq!(range_from_location(0), (0, 0));
    assert_eq!(range_from_location((5 << 32) | 12), (5, 17));
    // a full unsigned 32-bit length is a valid location
    assert_eq!(
        range_from_location((1 << 32) | 0xFFFFFFFF),
        (1, 1 + 0xFFFFFFFFusize)
    );
}

#[test]
fn overlap_is_any_shared_byte() {
    assert!(buffers_overlap(100, 10, 105, 10));
    assert!(buffers_overlap(105, 10, 100, 10));
    assert!(buffers_overlap(100, 10, 103, 2));
    assert!(!buffers_overlap(100, 10, 110, 10));
    assert!(!buffers_overlap(110, 10, 100, 10));
    assert!(!buffers_overlap(100, 0, 100, 10));
    assert!(!buffers_overlap(100, 10, 100, 0));
}
