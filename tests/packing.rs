use solar_raycaster::color::pack_rgb;

#[test]
fn pure_red_packs_to_ff0000() {
    assert_eq!(pack_rgb(255, 0, 0), 0xFF0000);
}

#[test]
fn black_packs_to_zero() {
    assert_eq!(pack_rgb(0, 0, 0), 0x000000);
}

#[test]
fn channels_land_in_their_bytes() {
    assert_eq!(pack_rgb(0x12, 0x34, 0x56), 0x123456);
    assert_eq!(pack_rgb(0, 255, 0), 0x00FF00);
    assert_eq!(pack_rgb(0, 0, 255), 0x0000FF);
    assert_eq!(pack_rgb(255, 255, 255), 0xFFFFFF);
}

#[test]
fn packed_channels_can_be_read_back() {
    let c = pack_rgb(200, 17, 3);
    assert_eq!((c >> 16) & 0xff, 200);
    assert_eq!((c >> 8) & 0xff, 17);
    assert_eq!(c & 0xff, 3);
    assert!(c < 0x100_0000);
}
