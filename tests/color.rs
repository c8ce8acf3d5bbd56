use point_cloud::color::{Color, BACKGROUND_ARGB};

#[test]
fn background_unpacks() {
    let c = Color::from_argb(BACKGROUND_ARGB);
    assert_eq!(c, Color { r: 0x18, g: 0x18, b: 0x18, a: 0xFF });
}

#[test]
fn channels_in_place() {
    let c = Color::from_argb(0x8012_3456);
    assert_eq!(c, Color { r: 0x12, g: 0x34, b: 0x56, a: 0x80 });
    assert_eq!(Color::from_argb(0), Color { r: 0, g: 0, b: 0, a: 0 });
}
