use plist_ext::date_range::{bits_in_range, dates_in_range, read_field};

fn float_bits(seconds: f64) -> u64 {
    seconds.to_bits()
}

/// A binary document with one object, a date of `seconds` after 2001.
fn document_with_date(seconds: f64) -> Vec<u8> {
    let mut doc = b"bplist00".to_vec();
    doc.push(0x33);
    doc.extend_from_slice(&seconds.to_bits().to_be_bytes());
    doc.push(8);
    doc.extend_from_slice(&[0, 0, 0, 0, 0, 0, 1, 1]);
    doc.extend_from_slice(&1u64.to_be_bytes());
    doc.extend_from_slice(&0u64.to_be_bytes());
    doc.extend_from_slice(&17u64.to_be_bytes());
    doc
}

#[test]
fn a_field_is_read_in_big_endian_order() {
    let doc = vec![0x01, 0x02, 0x03, 0x04, 0xff];
    assert_eq!(read_field(&doc, 0, 0), Some(0));
    assert_eq!(read_field(&doc, 0, 1), Some(1));
    assert_eq!(read_field(&doc, 0, 2), Some(0x0102));
    assert_eq!(read_field(&doc, 1, 3), Some(0x020304));
    assert_eq!(read_field(&doc, 4, 1), Some(0xff));
    assert_eq!(read_field(&doc, 5, 0), Some(0));
}

#[test]
fn a_field_of_eight_bytes_fills_the_word() {
    let doc = vec![0xff; 8];
    assert_eq!(read_field(&doc, 0, 8), Some(u64::MAX));
    let doc = vec![0x80, 0, 0, 0, 0, 0, 0, 1];
    assert_eq!(read_field(&doc, 0, 8), Some(0x8000_0000_0000_0001));
}

#[test]
fn a_field_that_does_not_fit_is_not_read() {
    let doc = vec![1u8; 9];
    assert_eq!(read_field(&doc, 0, 9), None);
    assert_eq!(read_field(&doc, 2, 8), None);
    assert_eq!(read_field(&doc, 9, 1), None);
    assert_eq!(read_field(&doc, 10, 0), None);
    assert_eq!(read_field(&doc, usize::MAX, 2), None);
    assert_eq!(read_field(&doc, 1, usize::MAX), None);
}

#[test]
fn the_bounds_are_the_years_0_and_10000() {
    assert_eq!(float_bits(252_423_993_600.0), 0x424d_62d2_3c80_0000);
    assert_eq!(float_bits(63_145_526_400.0), 0x422d_6788_8900_0000);
    assert!(bits_in_range(float_bits(0.0)));
    assert!(bits_in_range(float_bits(-0.0)));
    assert!(bits_in_range(float_bits(252_423_993_599.0)));
    assert!(!bits_in_range(float_bits(252_423_993_600.0)));
    assert!(!bits_in_range(float_bits(252_423_993_601.0)));
    assert!(bits_in_range(float_bits(-63_145_526_399.0)));
    assert!(!bits_in_range(float_bits(-63_145_526_400.0)));
    assert!(!bits_in_range(float_bits(-63_145_526_401.0)));
}

#[test]
fn floats_that_are_no_moment_are_out_of_range() {
    assert!(!bits_in_range(float_bits(f64::INFINITY)));
    assert!(!bits_in_range(float_bits(f64::NEG_INFINITY)));
    assert!(!bits_in_range(float_bits(f64::NAN)));
    assert!(!bits_in_range(float_bits(f64::MAX)));
    assert!(!bits_in_range(float_bits(f64::MIN)));
    assert!(bits_in_range(float_bits(f64::MIN_POSITIVE)));
    assert!(!bits_in_range(u64::MAX));
}

#[test]
fn a_document_with_a_date_in_range_passes() {
    assert!(dates_in_range(&document_with_date(0.0)));
    assert!(dates_in_range(&document_with_date(21_692_800.5)));
    assert!(dates_in_range(&document_with_date(-978_307_200.0)));
    assert!(dates_in_range(&document_with_date(252_423_993_599.0)));
}

#[test]
fn a_document_with_a_date_out_of_range_fails() {
    assert!(!dates_in_range(&document_with_date(252_423_993_600.0)));
    assert!(!dates_in_range(&document_with_date(-63_145_526_400.0)));
    assert!(!dates_in_range(&document_with_date(1.0e300)));
    assert!(!dates_in_range(&document_with_date(f64::NAN)));
}

#[test]
fn a_document_without_dates_passes() {
    let mut doc = b"bplist00".to_vec();
    doc.push(0xd0);
    doc.push(8);
    doc.extend_from_slice(&[0, 0, 0, 0, 0, 0, 1, 1]);
    doc.extend_from_slice(&1u64.to_be_bytes());
    doc.extend_from_slice(&0u64.to_be_bytes());
    doc.extend_from_slice(&9u64.to_be_bytes());
    assert!(dates_in_range(&doc));
}

#[test]
fn a_date_marker_inside_a_string_is_no_date() {
    // One object: the ASCII string "3" followed by bytes that would be an
    // out-of-range float if the `3` were taken for a date marker.
    let mut doc = b"bplist00".to_vec();
    doc.push(0x59);
    doc.extend_from_slice(b"3\x7f\xf0\x00\x00\x00\x00\x00\x00");
    doc.push(8);
    doc.extend_from_slice(&[0, 0, 0, 0, 0, 0, 1, 1]);
    doc.extend_from_slice(&1u64.to_be_bytes());
    doc.extend_from_slice(&0u64.to_be_bytes());
    doc.extend_from_slice(&18u64.to_be_bytes());
    assert!(dates_in_range(&doc));
}

#[test]
fn bytes_that_are_no_document_fail() {
    assert!(!dates_in_range(&Vec::new()));
    assert!(!dates_in_range(&b"bplist00".to_vec()));
    assert!(!dates_in_range(&vec![0u8; 39]));
    // Forty zero bytes: the width of a table entry is 0.
    assert!(!dates_in_range(&vec![0u8; 40]));
}

#[test]
fn a_table_that_runs_into_the_trailer_fails() {
    let mut doc = document_with_date(0.0);
    let len = doc.len();
    // Two objects announced, room for one entry.
    doc[len - 17] = 2;
    assert!(!dates_in_range(&doc));
    let mut doc = document_with_date(0.0);
    // The table is said to begin inside the trailer.
    doc[len - 1] = 19;
    assert!(!dates_in_range(&doc));
}

#[test]
fn an_object_that_starts_in_the_trailer_fails() {
    let mut doc = document_with_date(0.0);
    doc[17] = 18;
    assert!(!dates_in_range(&doc));
}

#[test]
fn a_date_cut_short_by_the_trailer_fails() {
    // The only object is a date marker with seven bytes before the trailer.
    let mut doc = b"bplist00".to_vec();
    doc.push(8);
    doc.push(0x33);
    doc.extend_from_slice(&[0; 7]);
    let trailer = doc.len();
    doc.extend_from_slice(&[0, 0, 0, 0, 0, 0, 1, 1]);
    doc.extend_from_slice(&1u64.to_be_bytes());
    doc.extend_from_slice(&0u64.to_be_bytes());
    doc.extend_from_slice(&8u64.to_be_bytes());
    assert_eq!(trailer, 17);
    doc[8] = 9;
    assert!(!dates_in_range(&doc));
}

#[test]
fn wide_table_entries_are_read() {
    // One date object, listed in a table with entries of two bytes.
    let mut doc = b"bplist00".to_vec();
    doc.push(0x33);
    doc.extend_from_slice(&1.0e300f64.to_bits().to_be_bytes());
    doc.extend_from_slice(&[0, 8]);
    doc.extend_from_slice(&[0, 0, 0, 0, 0, 0, 2, 1]);
    doc.extend_from_slice(&1u64.to_be_bytes());
    doc.extend_from_slice(&0u64.to_be_bytes());
    doc.extend_from_slice(&17u64.to_be_bytes());
    assert!(!dates_in_range(&doc));
    doc[9..17].copy_from_slice(&1.0f64.to_bits().to_be_bytes());
    assert!(dates_in_range(&doc));
}
