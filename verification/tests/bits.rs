use fugue::bits::{byte_swap, calculate_mask, sign_extend, zero_extend};

#[test]
fn masks_cover_whole_bytes() {
    assert_eq!(calculate_mask(0), 0);
    assert_eq!(calculate_mask(1), 0xff);
    assert_eq!(calculate_mask(2), 0xffff);
    assert_eq!(calculate_mask(4), 0xffff_ffff);
    assert_eq!(calculate_mask(7), 0x00ff_ffff_ffff_ffff);
    assert_eq!(calculate_mask(8), u64::MAX);
    assert_eq!(calculate_mask(100), u64::MAX);
}

#[test]
fn sign_extension_takes_the_bit_at_size() {
    assert_eq!(sign_extend(0x80, 7), -128);
    assert_eq!(sign_extend(0x7f, 7), 0x7f);
    assert_eq!(sign_extend(0x1ff, 7), -1);
    assert_eq!(sign_extend(0x17f, 7), 0x7f);
    assert_eq!(sign_extend(5, 64), 5);
    assert_eq!(sign_extend(-5, 80), -5);
    assert_eq!(sign_extend(sign_extend(0x80, 7), 7), sign_extend(0x80, 7));
}

#[test]
fn zero_extension_keeps_bits_up_to_size() {
    assert_eq!(zero_extend(-1, 7), 0xff);
    assert_eq!(zero_extend(0x1234, 7), 0x34);
    assert_eq!(zero_extend(-1, 63), -1);
    assert_eq!(zero_extend(-1, 62), i64::MAX);
    assert_eq!(zero_extend(zero_extend(-1, 15), 15), zero_extend(-1, 15));
}

#[test]
fn byte_swap_reverses_the_low_bytes() {
    assert_eq!(byte_swap(0x1234, 2), 0x3412);
    assert_eq!(byte_swap(0x1122_3344, 4), 0x4433_2211);
    assert_eq!(byte_swap(0x1122_3344, 2), 0x4433);
    assert_eq!(byte_swap(0x0102_0304_0506_0708, 8), 0x0807_0605_0403_0201);
    assert_eq!(byte_swap(-1, 1), 0xff);
    assert_eq!(byte_swap(7, 0), 0);
}

#[test]
fn swapping_bytes_twice_keeps_the_low_bytes() {
    let v: i64 = -0x0123_4567_89ab_cdef;
    assert_eq!(byte_swap(byte_swap(v, 8), 8), v);
    assert_eq!(byte_swap(byte_swap(v, 3), 3), v & 0xff_ffff);
    assert_eq!(byte_swap(byte_swap(0x1234, 2), 2), 0x1234);
    assert_eq!(byte_swap(byte_swap(v, 0), 0), 0);
}
