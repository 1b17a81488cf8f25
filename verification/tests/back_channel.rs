use flint_nfs::back_channel::{record_marker, RecordError, MAX_FRAGMENT};

#[test]
fn a_marker_is_the_length_with_the_last_fragment_bit() {
    assert_eq!(record_marker(0), Ok([0x80, 0, 0, 0]));
    assert_eq!(record_marker(5), Ok([0x80, 0, 0, 5]));
    assert_eq!(record_marker(0x0012_3456), Ok([0x80, 0x12, 0x34, 0x56]));
}

#[test]
fn the_largest_fragment_is_the_last_that_goes_out() {
    let max = MAX_FRAGMENT as usize;
    assert_eq!(record_marker(max), Ok([0xff, 0xff, 0xff, 0xff]));
    assert_eq!(record_marker(max + 1), Err(RecordError::TooLong));
    assert_eq!(RecordError::TooLong.describe(), "RPC fragment exceeds 2 GiB");
}
