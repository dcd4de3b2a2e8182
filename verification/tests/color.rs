use raytracer::color::Color;
use raytracer::scalar::Scalar;

fn s(x: f32) -> Scalar {
    Scalar::from_bits(x.to_bits())
}

#[test]
fn named_colours() {
    assert_eq!(Color::black(), Color { r: 0, g: 0, b: 0 });
    assert_eq!(Color::white(), Color { r: 255, g: 255, b: 255 });
    let c = Color::new(68, 142, 228);
    assert_eq!((c.red(), c.green(), c.blue()), (68, 142, 228));
}

#[test]
fn packing() {
    assert_eq!(Color::new(0x12, 0x34, 0x56).to_hex(), 0x12_3456);
    assert_eq!(Color::black().to_hex(), 0);
    assert_eq!(Color::white().to_hex(), 0xff_ffff);
    assert_eq!(Color::new(255, 0, 0).to_hex(), 0xff_0000);
    assert_eq!(Color::new(0, 255, 0).to_hex(), 0x00_ff00);
    assert_eq!(Color::new(0, 0, 255).to_hex(), 0x00_00ff);
}

#[test]
fn unpacking_undoes_packing() {
    for (r, g, b) in [(0u8, 0u8, 0u8), (1, 2, 3), (255, 254, 253), (10, 10, 50), (68, 142, 228)] {
        let c = Color::new(r, g, b);
        assert_eq!(Color::from_hex(c.to_hex()), c);
    }
    assert_eq!(Color::from_hex(0xab_12_34_56), Color::new(0x12, 0x34, 0x56));
    assert_eq!(Color::from_hex(0x12_3456).to_hex(), 0x12_3456);
}

#[test]
fn radiance_is_clamped_when_written() {
    assert_eq!(Color::from_radiance(s(0.0), s(127.9), s(255.0)), Color::new(0, 127, 255));
    assert_eq!(Color::from_radiance(s(-20.0), s(300.0), s(1.0e9)), Color::new(0, 255, 255));
    assert_eq!(Color::from_radiance(s(f32::NAN), s(0.5), s(255.9)), Color::new(0, 0, 255));
    // A sum of two bright terms is clamped once, at the end.
    let sum = 200.0_f32 + 200.0 - 150.0;
    assert_eq!(Color::from_radiance(s(sum), s(sum), s(sum)), Color::new(250, 250, 250));
}
