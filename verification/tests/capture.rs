use saili::capture::{changed_mask, csv_record};

#[test]
fn changed_mask_marks_first_and_changed_bytes() {
    assert_eq!(changed_mask(None, &[1, 2]), 0xff);
    assert_eq!(changed_mask(Some(&[1, 2]), &[1, 2]), 0);
    assert_eq!(changed_mask(Some(&[1, 2]), &[1, 3]), 0x02);
    assert_eq!(changed_mask(Some(&[1]), &[1, 2]), 0xff);
}

#[test]
fn csv_record_contains_timing_length_bytes_and_mask() {
    assert_eq!(
        csv_record(4, 123, 10, &[0x01, 0xab], 0x02),
        "4,123,10,2,01 ab,02"
    );
}
