use sopipe::bytes::{append, contains_in, copy_range, push_be16, push_be32, push_be64, read_be64};
use sopipe::text::{chars_of, decimal};

#[test]
fn numbers_in_decimal_digits() {
    assert_eq!(decimal(0), "0");
    assert_eq!(decimal(7), "7");
    assert_eq!(decimal(10), "10");
    assert_eq!(decimal(1234567890), "1234567890");
    assert_eq!(decimal(u64::MAX), "18446744073709551615");
}

#[test]
fn characters_of_a_text() {
    assert_eq!(chars_of("aé=>"), vec!['a', 'é', '=', '>']);
    assert!(chars_of("").is_empty());
}

#[test]
fn numbers_in_bytes_most_significant_first() {
    let mut buf = vec![0xaa];
    push_be16(&mut buf, 0x0102);
    push_be32(&mut buf, 0x03040506);
    push_be64(&mut buf, 0x0708090a0b0c0d0e);
    assert_eq!(buf, vec![0xaa, 1, 2, 3, 4, 5, 6, 7, 8, 9, 10, 11, 12, 13, 14]);
    assert_eq!(read_be64(&buf[7..]), 0x0708090a0b0c0d0e);
    assert_eq!(read_be64(&[0xff; 9]), u64::MAX);
}

#[test]
fn ranges_of_bytes() {
    let buf = [1u8, 2, 3, 4, 5];
    assert_eq!(copy_range(&buf, 1, 4), vec![2, 3, 4]);
    assert_eq!(copy_range(&buf, 5, 5), Vec::<u8>::new());
    assert!(contains_in(&buf, 0, 5, 3));
    assert!(!contains_in(&buf, 3, 5, 3));
    assert!(!contains_in(&buf, 2, 2, 3));
    let mut all = vec![9];
    append(&mut all, &buf);
    assert_eq!(all, vec![9, 1, 2, 3, 4, 5]);
}
