use pcie_mem_test::pattern::{
    get_rotated_left_7_hex_digits, index_to_single_value, wide_index_to_single_value,
};

#[test]
fn test_index_to_value() {
    assert_eq!(index_to_single_value(0x00000000), 0x30000000);
    assert_eq!(index_to_single_value(0x00000001), 0x40010000);
    assert_eq!(index_to_single_value(0x0000000F), 0x50F00000);
    assert_eq!(index_to_single_value(0x000001F5), 0xA01F5000);
    assert_eq!(index_to_single_value(0x000000F0), 0x9000F000);
    assert_eq!(index_to_single_value(0x00000100), 0xC0000001);
    assert_eq!(index_to_single_value(0x00000F00), 0x8000F000);
    assert_eq!(index_to_single_value(0x00001000), 0x40000001);
    assert_eq!(index_to_single_value(0x00010000), 0x60001000);
    assert_eq!(index_to_single_value(0x00100000), 0xC0001000);
    assert_eq!(index_to_single_value(0x01000000), 0x40001000);
    assert_eq!(index_to_single_value(0x0E000006), 0xA0006E00);
}

#[test]
fn pattern_is_the_same_at_every_call() {
    let mut addr: usize = 0;
    while addr < 100_000 {
        assert_eq!(index_to_single_value(addr), index_to_single_value(addr));
        addr += 7;
    }
}

#[test]
fn top_digit_is_the_shift() {
    let mut addr: usize = 0;
    while addr < 10_000 {
        let word = index_to_single_value(addr);
        let shift = (word >> 28) as usize;
        assert_eq!(shift, (addr + 1) % 13 + 2);
        assert!((2..=14).contains(&shift));
        addr += 1;
    }
}

#[test]
fn shift_goes_by_the_whole_address() {
    assert_eq!(index_to_single_value(12), 0x20000C00);
    assert_eq!(index_to_single_value(64), 0x20004000);
    assert_eq!(wide_index_to_single_value(0xFFFF_FFFF), 0xBFFF_FFFF);
    assert_eq!(wide_index_to_single_value(0x12_3456_789A), 0x6A45_6789);
    assert_eq!(wide_index_to_single_value(0x0E00_0006), 0xA000_6E00);
}

#[test]
fn rotation_moves_whole_digits() {
    assert_eq!(get_rotated_left_7_hex_digits(0x1234567, 3), 0x4567123);
    assert_eq!(get_rotated_left_7_hex_digits(0x1234567, 6), 0x7123456);
    assert_eq!(get_rotated_left_7_hex_digits(0x1234567, 1), 0x2345671);
}

#[test]
fn rotation_by_nothing_or_by_all_keeps_the_digits() {
    assert_eq!(get_rotated_left_7_hex_digits(0x1234567, 0), 0x1234567);
    assert_eq!(get_rotated_left_7_hex_digits(0x1234567, 7), 0x1234567);
}

#[test]
fn rotation_drops_the_eighth_digit() {
    assert_eq!(get_rotated_left_7_hex_digits(0xF1234567, 0), 0x1234567);
    assert_eq!(get_rotated_left_7_hex_digits(0xF1234567, 3), 0x4567123);
    assert_eq!(get_rotated_left_7_hex_digits(0xFFFFFFFF, 5), 0x0FFFFFFF);
}
