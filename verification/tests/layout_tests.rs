use stackalloc::layout::{align_buffer_to, region_bytes, trusted_len, window_start};

#[test]
fn region_bytes_adds_one_alignment_of_slack() {
    assert_eq!(region_bytes::<u64>(3), Some(3 * 8 + 8));
    assert_eq!(region_bytes::<u32>(5), Some(5 * 4 + 4));
    assert_eq!(region_bytes::<u8>(1000), Some(1001));
    assert_eq!(region_bytes::<[u16; 3]>(4), Some(4 * 6 + 2));
}

#[test]
fn region_bytes_of_no_slots_is_the_alignment() {
    assert_eq!(region_bytes::<u8>(0), Some(1));
    assert_eq!(region_bytes::<u64>(0), Some(8));
}

#[test]
fn region_bytes_of_zero_sized_slots_is_the_alignment() {
    assert_eq!(region_bytes::<()>(usize::MAX), Some(1));
}

#[test]
fn region_bytes_refuses_what_does_not_fit() {
    assert_eq!(region_bytes::<u64>(usize::MAX), None);
    assert_eq!(region_bytes::<u64>(usize::MAX / 8 + 1), None);
    assert_eq!(region_bytes::<u8>(usize::MAX), None);
    assert_eq!(region_bytes::<u8>(usize::MAX - 1), Some(usize::MAX));
    assert_eq!(region_bytes::<u64>(usize::MAX / 8), None);
    assert_eq!(region_bytes::<u64>(usize::MAX / 8 - 1), Some(usize::MAX / 8 * 8));
}

#[test]
fn align_buffer_to_keeps_an_aligned_address() {
    assert_eq!(align_buffer_to::<u64>(16), 16);
    assert_eq!(align_buffer_to::<u64>(0), 0);
    assert_eq!(align_buffer_to::<u32>(4096), 4096);
}

#[test]
fn align_buffer_to_moves_up_to_the_next_multiple() {
    assert_eq!(align_buffer_to::<u64>(13), 16);
    assert_eq!(align_buffer_to::<u64>(17), 24);
    assert_eq!(align_buffer_to::<u32>(13), 16);
    assert_eq!(align_buffer_to::<u16>(13), 14);
    assert_eq!(align_buffer_to::<u64>(9), 16);
}

#[test]
fn align_buffer_to_never_moves_a_byte_address() {
    let mut addr: usize = 0;
    while addr < 64 {
        assert_eq!(align_buffer_to::<u8>(addr), addr);
        addr += 1;
    }
}

#[test]
fn aligned_window_stays_inside_the_region() {
    let count: usize = 7;
    let bytes = region_bytes::<u64>(count).unwrap();
    let mut start: usize = 1000;
    while start < 1032 {
        let first = align_buffer_to::<u64>(start);
        assert_eq!(first % 8, 0);
        assert!(first >= start);
        assert!(first - start < 8);
        assert!(first + 8 * count <= start + bytes);
        start += 1;
    }
}

#[test]
fn trusted_len_prefers_the_upper_estimate() {
    assert_eq!(trusted_len(2, Some(5)), 5);
    assert_eq!(trusted_len(7, Some(0)), 0);
    assert_eq!(trusted_len(2, None), 2);
    assert_eq!(trusted_len(0, None), 0);
}

#[test]
fn window_start_is_the_first_aligned_address_of_the_region() {
    let bytes = region_bytes::<u32>(6).unwrap();
    assert_eq!(bytes, 28);
    assert_eq!(window_start::<u32>(1000, bytes, 6), 1000);
    assert_eq!(window_start::<u32>(1001, bytes, 6), 1004);
    assert_eq!(window_start::<u32>(1003, bytes, 6), 1004);
    assert_eq!(window_start::<u32>(1004, bytes, 6), 1004);
}

#[test]
fn window_start_of_no_slots_stays_inside_the_slack() {
    let bytes = region_bytes::<u64>(0).unwrap();
    assert_eq!(bytes, 8);
    let mut start: usize = 64;
    while start < 72 {
        let first = window_start::<u64>(start, bytes, 0);
        assert_eq!(first % 8, 0);
        assert!(start <= first && first <= start + bytes);
        start += 1;
    }
}

#[test]
fn window_start_at_the_top_of_the_address_space() {
    let bytes = region_bytes::<u16>(3).unwrap();
    assert_eq!(bytes, 8);
    let start = usize::MAX - 7;
    assert_eq!(window_start::<u16>(start, bytes, 3), start);
    assert_eq!(window_start::<u16>(start - 1, bytes, 3), start);
}
