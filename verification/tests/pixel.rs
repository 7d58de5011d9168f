use ditherpunker::utils::num::{closest_pow_2, UNIT};
use ditherpunker::utils::pixel::{default_color_map, RGB};

#[test]
fn test_rgb_from_u8_keeps_channels() {
    let c = RGB::from_u8(1, 2, 3, 4);
    assert_eq!(c, RGB { r: 1, g: 2, b: 3, a: 4 });
}

#[test]
fn test_rgb_grayscale_extremes() {
    assert_eq!(RGB::from_u8(0, 0, 0, 255).grayscale(), 0);
    // The luma weights sum to UNIT exactly, so full white is exactly 1.0.
    assert_eq!(RGB::from_u8(255, 255, 255, 255).grayscale(), UNIT as u32);
}

#[test]
fn test_rgb_grayscale_weights() {
    // 0.299 / 0.587 / 0.114 in fixed point, of a pure red pixel.
    assert_eq!(RGB::from_u8(255, 0, 0, 0).grayscale(), 19595);
    assert_eq!(RGB::from_u8(0, 255, 0, 0).grayscale(), 38470);
    assert_eq!(RGB::from_u8(0, 0, 255, 0).grayscale(), 7471);
}

#[test]
fn test_rgb_to_grayscale_levels_channels() {
    let c = RGB::from_u8(200, 10, 90, 123).to_grayscale();
    assert_eq!(c.r, c.g);
    assert_eq!(c.g, c.b);
    assert_eq!(c.a, 123);
}

#[test]
fn test_rgb_to_i32_packs_channels() {
    assert_eq!(RGB::from_u8(1, 2, 3, 0).to_i32(), 0x010203);
    assert_eq!(RGB::from_u8(255, 255, 255, 0).to_i32(), 0xFFFFFF);
}

#[test]
fn test_rgb_from_hex_parses_both_cases() {
    assert_eq!(
        RGB::from_hex("#ff0080"),
        Some(RGB { r: 255, g: 0, b: 128, a: 255 })
    );
    assert_eq!(
        RGB::from_hex("FF0080"),
        Some(RGB { r: 255, g: 0, b: 128, a: 255 })
    );
    assert_eq!(
        RGB::from_hex("020217"),
        Some(RGB { r: 2, g: 2, b: 23, a: 255 })
    );
}

#[test]
fn test_rgb_from_hex_cleans_its_input() {
    // Whitespace around the string and hash marks inside it are dropped,
    // and only the first six remaining characters count.
    let lime = Some(RGB { r: 160, g: 255, b: 32, a: 255 });
    assert_eq!(RGB::from_hex("  #a0ff20  "), lime);
    assert_eq!(RGB::from_hex("\t#a0ff20\n"), lime);
    assert_eq!(RGB::from_hex("##a0#ff20"), lime);
    assert_eq!(RGB::from_hex("a0ff20ff"), lime);
    assert_eq!(RGB::from_hex("a0ff2099aabb"), lime);
}

#[test]
fn test_rgb_from_hex_rejects_bad_input() {
    assert_eq!(RGB::from_hex("#ff00"), None);
    assert_eq!(RGB::from_hex("gg0080"), None);
    assert_eq!(RGB::from_hex("ff 0080"), None);
    assert_eq!(RGB::from_hex(""), None);
    assert_eq!(RGB::from_hex("   #   "), None);
}

#[test]
fn test_rgb_to_hex_is_unpadded_uppercase() {
    assert_eq!(RGB::from_u8(255, 0, 128, 255).to_hex(), "FF080");
    assert_eq!(RGB::from_u8(1, 2, 3, 0).to_hex(), "123");
    assert_eq!(RGB::from_u8(16, 255, 0, 0).to_hex(), "10FF0");
    assert_eq!(RGB::from_u8(171, 205, 239, 0).to_hex(), "ABCDEF");
}

#[test]
fn test_rgb_hex_round_trip() {
    // Two-digit channels round-trip through the unpadded renderer.
    let c = RGB { r: 0xAB, g: 0xCD, b: 0xEF, a: 255 };
    assert_eq!(RGB::from_hex(&c.to_hex()), Some(c));
}

#[test]
fn test_default_color_map_is_black_then_white() {
    let map = default_color_map();
    assert_eq!(map.len(), 2);
    assert_eq!(map[0].color, RGB { r: 0, g: 0, b: 0, a: 255 });
    assert_eq!(map[1].color, RGB { r: 255, g: 255, b: 255, a: 255 });
    assert_eq!(map[0].scale, UNIT);
    assert_eq!(map[1].offset, 0);
}

#[test]
fn test_closest_pow_2_literal_cases() {
    assert_eq!(closest_pow_2(0), 1);
    assert_eq!(closest_pow_2(6), 4); // tie resolved to the lower power
    assert_eq!(closest_pow_2(12), 8);
    assert_eq!(closest_pow_2(24), 16);
}
