use nano9::shapes::size_to_corners;

#[test]
fn test_suffix_match() {
    let s = "a\\0";
    assert_eq!(s.len(), 3);
    assert!(s.ends_with("\\0"));
}

#[test]
fn corners_of_positive_size() {
    assert_eq!(size_to_corners(2, 3, 4, 5), (2, 3, 5, 7));
}

#[test]
fn corners_of_negative_size() {
    assert_eq!(size_to_corners(10, 10, -3, -1), (8, 10, 10, 10));
}

#[test]
fn corners_of_zero_size() {
    assert_eq!(size_to_corners(4, 6, 0, 0), (4, 6, 4, 6));
}
