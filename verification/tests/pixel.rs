use snip2text::pixel::{dim, pack, unpack};

#[test]
fn dim_halves_each_channel() {
    assert_eq!(dim(0x00FFFFFF), 0x007F7F7F);
    assert_eq!(dim(0x00010203), 0x00000101);
    assert_eq!(dim(0xFF000000), 0);
    assert_eq!(dim(0x00804020), 0x00402010);
}

#[test]
fn unpack_gives_back_what_pack_took() {
    assert_eq!(pack(0x12, 0x34, 0x56), 0x00123456);
    assert_eq!(unpack(0x00123456), (0x12, 0x34, 0x56));
    assert_eq!(unpack(0xAB123456), (0x12, 0x34, 0x56));
}
