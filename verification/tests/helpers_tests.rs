use des::{circular_left_shift_28, combine_2_32_bit_blocks, concatenate_28_bit_blocks, divide_64_bit_block};

#[test]
fn circular_left_shift_1() {
    let value: u32 = 1;
    let shifted_value: u32 = circular_left_shift_28(&value);
    assert_eq!(shifted_value, 2);
}

#[test]
fn circular_left_shift_2() {
    let value: u32 = 2;
    let shifted_value: u32 = circular_left_shift_28(&value);
    assert_eq!(shifted_value, 4);
}

#[test]
fn circular_left_shift_27() {
    let value: u32 = 1 << 27;
    let shifted_value: u32 = circular_left_shift_28(&value);
    assert_eq!(shifted_value, 1);
}

#[test]
fn concatenate_28_bit_blocks_low() {
    let c: u32 = 1;
    let d: u32 = 1;
    let concat_value: u64 = concatenate_28_bit_blocks(&c, &d);
    let expected: u64 = 0b0000000000000000000000000000000000010000000000000000000000000001;
    assert_eq!(concat_value, expected);
}

#[test]
fn concatenate_28_bit_blocks_high() {
    let c: u32 = 1 << 27;
    let d: u32 = 1 << 27;
    let concat_value: u64 = concatenate_28_bit_blocks(&c, &d);
    let expected: u64 = 0b0000000010000000000000000000000000001000000000000000000000000000;
    assert_eq!(concat_value, expected);
}

#[test]
fn concatenate_28_bit_blocks_max() {
    let c: u32 = u32::MAX;
    let d: u32 = u32::MAX;
    let concat_value: u64 = concatenate_28_bit_blocks(&c, &d);
    let expected: u64 = 0b0000000011111111111111111111111111111111111111111111111111111111;
    assert_eq!(concat_value, expected);
}

#[test]
fn divide_64_bit_block_1() {
    let test_value: u64 = 0x0000000100000001;
    let expected: u32 = 0x00000001;
    let (left, right) = divide_64_bit_block(&test_value);
    assert_eq!(left, expected);
    assert_eq!(right, expected);
}

#[test]
fn divide_64_bit_block_2() {
    let test_value: u64 = 0x0000000110000000;
    let expected_left: u32 = 0x00000001;
    let expected_right: u32 = 0x10000000;
    let (left, right) = divide_64_bit_block(&test_value);
    assert_eq!(left, expected_left);
    assert_eq!(right, expected_right);
}

#[test]
fn divide_64_bit_block_3() {
    let test_value: u64 = 0xdeadbeefdeadbeef;
    let expected: u32 = 0xdeadbeef;
    let (left, right) = divide_64_bit_block(&test_value);
    assert_eq!(left, expected);
    assert_eq!(right, expected);
}

#[test]
fn combine_2_32_bit_blocks_1() {
    let left: u32 = 0x00000001;
    let expected: u64 = 0x0000000100000001;
    let combined: u64 = combine_2_32_bit_blocks(&left, &left);
    assert_eq!(combined, expected);
}

#[test]
fn combine_2_32_bit_blocks_2() {
    let left: u32 = 0x00000001;
    let right: u32 = 0x10000000;
    let expected: u64 = 0x0000000110000000;
    let combined: u64 = combine_2_32_bit_blocks(&left, &right);
    assert_eq!(combined, expected);
}

#[test]
fn combine_2_32_bit_blocks_3() {
    let left: u32 = 0xdeadbeef;
    let right: u32 = 0xdeadbeef;
    let expected: u64 = 0xdeadbeefdeadbeef;
    let combined: u64 = combine_2_32_bit_blocks(&left, &right);
    assert_eq!(combined, expected);
}

#[test]
fn circular_left_shift_ignores_high_bits() {
    let value: u32 = 0xf000_0001;
    assert_eq!(circular_left_shift_28(&value), 2);
    let value: u32 = 0x0fff_ffff;
    assert_eq!(circular_left_shift_28(&value), 0x0fff_ffff);
}

#[test]
fn circular_left_shift_28_times_is_identity() {
    let start: u32 = 0x0abc_def1;
    let mut value = start;
    for _ in 0..28 {
        value = circular_left_shift_28(&value);
    }
    assert_eq!(value, start);
}

#[test]
fn concatenate_28_bit_blocks_overlapping_high_bits() {
    let c: u32 = 0;
    let d: u32 = 0xf000_0000;
    assert_eq!(concatenate_28_bit_blocks(&c, &d), 0xf000_0000);
    let c: u32 = 0x0123_4567;
    let d: u32 = 0x089a_bcde;
    assert_eq!(concatenate_28_bit_blocks(&c, &d), 0x0123_4567_89a_bcde);
}

#[test]
fn divide_then_combine_gives_back_block() {
    for &block in [0u64, 1, 0x0123_4567_89ab_cdef, u64::MAX, 0x8000_0000_0000_0000].iter() {
        let (left, right) = divide_64_bit_block(&block);
        assert_eq!(combine_2_32_bit_blocks(&left, &right), block);
    }
}
