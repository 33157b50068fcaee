use ra_metal_capture::hdr::{pack_2101010, pack_8888};

#[test]
fn packing_puts_red_in_the_high_bits() {
    assert_eq!(pack_2101010(0x3FF, 0, 0), 0x3FF0_0000);
    assert_eq!(pack_2101010(0, 0x3FF, 0), 0x000F_FC00);
    assert_eq!(pack_2101010(0, 0, 0x3FF), 0x0000_03FF);
    assert_eq!(pack_8888(0xFF, 0, 0), 0x00FF_0000);
    assert_eq!(pack_8888(0x12, 0x34, 0x56), 0x0012_3456);
}

#[test]
fn packing_drops_bits_above_ten_and_unpacks_back() {
    assert_eq!(pack_2101010(0xFFFF, 0, 0), 0x3FF0_0000);
    let p = pack_2101010(0x123, 0x2AB, 0x3CD);
    assert_eq!((p >> 20) & 0x3FF, 0x123);
    assert_eq!((p >> 10) & 0x3FF, 0x2AB);
    assert_eq!(p & 0x3FF, 0x3CD);
    assert_eq!(p >> 30, 0);
}
