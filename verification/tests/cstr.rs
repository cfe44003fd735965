use esp8266_wifi::cstr::{compare_step, strncmp, strncpy, CompareStep};

#[test]
fn strncmp_equal_strings() {
    assert_eq!(strncmp(b"abc\0", b"abc\0", 10), 0);
}

#[test]
fn strncmp_first_difference() {
    assert_eq!(strncmp(b"abd\0", b"abc\0", 10), 1);
    assert_eq!(strncmp(b"abc\0", b"abd\0", 10), -1);
    assert_eq!(strncmp(b"a\0", b"b\0", 10), -1);
}

#[test]
fn strncmp_bytes_are_unsigned() {
    assert_eq!(strncmp(&[0xff, 0], &[0x01, 0], 2), 254);
}

#[test]
fn strncmp_stops_at_n() {
    assert_eq!(strncmp(b"abcX", b"abcY", 3), 0);
    assert_eq!(strncmp(b"", b"", 0), 0);
}

#[test]
fn strncmp_stops_at_nul() {
    assert_eq!(strncmp(b"ab\0X", b"ab\0Y", 4), 0);
}

#[test]
fn strncmp_prefix_is_smaller() {
    assert_eq!(strncmp(b"ab\0", b"abc\0", 4), -(b'c' as i32));
}

#[test]
fn strncmp_is_antisymmetric() {
    assert_eq!(strncmp(b"hello\0", b"help\0", 8), -strncmp(b"help\0", b"hello\0", 8));
}

#[test]
fn compare_step_cases() {
    assert!(matches!(compare_step(3, 3), CompareStep::Continue));
    assert!(matches!(compare_step(0, 0), CompareStep::Finish(0)));
    assert!(matches!(compare_step(5, 2), CompareStep::Finish(3)));
}

#[test]
fn strncpy_pads_with_nul() {
    let mut dest = vec![9u8; 8];
    strncpy(&mut dest, b"hi\0", 6);
    assert_eq!(dest, vec![b'h', b'i', 0, 0, 0, 0, 9, 9]);
}

#[test]
fn strncpy_truncates_without_nul() {
    let mut dest = vec![9u8; 4];
    strncpy(&mut dest, b"hello", 3);
    assert_eq!(dest, vec![b'h', b'e', b'l', 9]);
}

#[test]
fn strncpy_zero_length_leaves_dest() {
    let mut dest = vec![7u8; 3];
    strncpy(&mut dest, b"", 0);
    assert_eq!(dest, vec![7, 7, 7]);
}

#[test]
fn strncpy_then_strncmp_is_zero() {
    let mut dest = vec![1u8; 10];
    let src = b"wifi\0";
    strncpy(&mut dest, src, 10);
    assert_eq!(strncmp(&dest, src, 10), 0);
}
