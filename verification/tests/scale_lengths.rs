use autarkie::scale::serialize_vec_len;

#[test]
fn compact_lengths_use_the_smallest_mode() {
    assert_eq!(serialize_vec_len(0), vec![0]);
    assert_eq!(serialize_vec_len(1), vec![4]);
    assert_eq!(serialize_vec_len(63), vec![252]);
    assert_eq!(serialize_vec_len(64), vec![1, 1]);
    assert_eq!(serialize_vec_len(16383), vec![0xfd, 0xff]);
    assert_eq!(serialize_vec_len(16384), vec![2, 0, 1, 0]);
    assert_eq!(serialize_vec_len((1 << 30) - 1), vec![0xfe, 0xff, 0xff, 0xff]);
    assert_eq!(serialize_vec_len(1 << 30), vec![3, 0, 0, 0, 0x40]);
    assert_eq!(serialize_vec_len(u32::MAX as usize), vec![3, 0xff, 0xff, 0xff, 0xff]);
}
