use tfcore::utils::{bytes_equal, search_memory};

#[test]
fn finds_first_exact_match() {
    let mem = [1u8, 0x8B, 0x0D, 5, 0x8B, 0x0D, 9, 9];
    assert_eq!(search_memory(&mem, mem.len(), &[0x8B, 0x0D], &[true, true]), Some(1));
}

#[test]
fn reports_none_without_match() {
    let mem = [1u8, 2, 3, 4, 5, 6];
    assert_eq!(search_memory(&mem, mem.len(), &[7, 8], &[true, true]), None);
}

#[test]
fn unmarked_bytes_are_wildcards() {
    let mem = [0xAAu8, 0x11, 0xFF, 0x22, 0x00];
    assert_eq!(search_memory(&mem, mem.len(), &[0x11, 0x00, 0x22], &[true, false, true]), Some(1));
    assert_eq!(search_memory(&mem, mem.len(), &[0x11, 0x00, 0x22], &[true, true, true]), None);
}

#[test]
fn match_touching_the_end_is_not_found() {
    // The pattern must end strictly before `len`.
    let mem = [0u8, 0, 0x8B, 0x0D];
    assert_eq!(search_memory(&mem, mem.len(), &[0x8B, 0x0D], &[true, true]), None);
    let mem2 = [0u8, 0x8B, 0x0D, 0];
    assert_eq!(search_memory(&mem2, mem2.len(), &[0x8B, 0x0D], &[true, true]), Some(1));
}

#[test]
fn only_the_first_len_bytes_are_searched() {
    let mem = [0u8, 0, 0, 0, 0x8B, 0x0D, 0];
    assert_eq!(search_memory(&mem, 4, &[0x8B, 0x0D], &[true, true]), None);
    assert_eq!(search_memory(&mem, 7, &[0x8B, 0x0D], &[true, true]), Some(4));
}

#[test]
fn pattern_not_shorter_than_region_is_never_found() {
    let mem = [1u8, 2];
    assert_eq!(search_memory(&mem, 2, &[1, 2], &[true, true]), None);
    assert_eq!(search_memory(&mem, 2, &[1, 2, 3], &[true, true, true]), None);
}

#[test]
fn short_mask_compares_only_masked_prefix() {
    let mem = [5u8, 6, 99, 0];
    assert_eq!(search_memory(&mem, 4, &[5, 6, 7], &[true, true]), Some(0));
}

#[test]
fn empty_pattern_matches_at_start() {
    let mem = [5u8];
    assert_eq!(search_memory(&mem, 1, &[], &[]), Some(0));
    assert_eq!(search_memory(&mem, 0, &[], &[]), None);
}

#[test]
fn byte_strings_compare_by_content() {
    assert!(bytes_equal(b"abc", b"abc"));
    assert!(!bytes_equal(b"abc", b"abd"));
    assert!(!bytes_equal(b"abc", b"ab"));
    assert!(bytes_equal(b"", b""));
}
