use ycm_core::utils::byte_off_to_unicode_off;

#[test]
fn test_off() {
    let cases = [
        // Simple ascii strings.
        (("test", 1), 1),
        (("test", 4), 4),
        (("test", 5), 5),
        // Unicode char at beginning.
        (("†est", 1), 1),
        (("†est", 4), 2),
        (("†est", 6), 4),
        (("†est", 7), 5),
        // Unicode char at end.
        (("tes†", 1), 1),
        (("tes†", 2), 2),
        (("tes†", 4), 4),
        (("tes†", 7), 5),
        // Unicode char in middle.
        (("tes†ing", 1), 1),
        (("tes†ing", 2), 2),
        (("tes†ing", 4), 4),
        (("tes†ing", 7), 5),
        (("tes†ing", 9), 7),
        (("tes†ing", 10), 8),
    ];
    for ((s, n), expected) in cases {
        println!("case: {}, {}", s, n);
        assert_eq!(byte_off_to_unicode_off(s, n), expected);
    }
}

#[test]
fn offsets_at_the_edges() {
    assert_eq!(byte_off_to_unicode_off("", 1), 1);
    assert_eq!(byte_off_to_unicode_off("ab", 3), 3);
    // An offset inside a character counts the character as started.
    assert_eq!(byte_off_to_unicode_off("†", 3), 2);
    assert_eq!(byte_off_to_unicode_off("†", 4), 2);
}
