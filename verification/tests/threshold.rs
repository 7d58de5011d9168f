use ditherpunker::dithering::threshold::bayer_transform::{
    BayerConfig, BayerStrategy, BayerTransform,
};
use ditherpunker::dithering::threshold::matrices::bayer_matrix;
use ditherpunker::dithering::threshold::ThresholdType;
use ditherpunker::dithering::DitheringType;
use ditherpunker::texture::{Texture, TextureRef};
use ditherpunker::transform::grayscale::GrayscaleTransform;
use ditherpunker::transform::pipe::PipeableTransform;
use ditherpunker::transform::traits::TextureTransform;
use ditherpunker::utils::num::UNIT;
use ditherpunker::utils::pixel::{default_color_map, ColorMapElement, RGB};
use rand::RngExt;

const BLACK: RGB = RGB { r: 0, g: 0, b: 0, a: 255 };
const WHITE: RGB = RGB { r: 255, g: 255, b: 255, a: 255 };

/// A random gray image of `size * size` fixed-point values in `[0, UNIT]`.
fn random_gray_image(size: usize) -> Vec<u32> {
    let mut rng = rand::rng();
    (0..size * size).map(|_| rng.random::<u32>() % (UNIT as u32 + 1)).collect()
}

/// A palette of `n` random colors with random coefficients in `[0, UNIT)`.
fn random_color_map(n: usize) -> Vec<ColorMapElement> {
    let mut rng = rand::rng();
    (0..n)
        .map(|_| ColorMapElement {
            color: RGB::from_u8(
                rng.random::<u8>(),
                rng.random::<u8>(),
                rng.random::<u8>(),
                255,
            ),
            scale: (rng.random::<u32>() % UNIT as u32) as i64,
            offset: (rng.random::<u32>() % UNIT as u32) as i64,
        })
        .collect()
}

/// Build the strategy's transform over the config, prepare it for the
/// image's shape, and apply it.
fn run_strategy(
    strategy: BayerStrategy,
    config: BayerConfig,
    input: &Texture<u32>,
) -> Texture<RGB> {
    let mut output: Texture<RGB> = Texture::new(input.width(), input.height(), 1);
    let mut transform: BayerTransform = strategy.build(config);
    transform.prepare(input.shape(), output.shape());
    transform.apply(input, &mut output);
    output
}

fn assert_images_match(a: &Texture<RGB>, b: &Texture<RGB>, width: usize, la: &str, lb: &str) {
    assert_eq!(a.len(), b.len(), "image lengths don't match");
    for idx in 0..a.len() {
        assert_eq!(
            *a.get(idx),
            *b.get(idx),
            "Pixel mismatch at index {} (x={}, y={}): {} vs {}",
            idx,
            idx % width,
            idx / width,
            la,
            lb
        );
    }
}

#[test]
fn test_scenario_uniform_gray_two_tone() {
    // A 2x2 matrix of order 1 with the values 0, 1/2, 3/4, 1/4 and the
    // default black/white palette, on a uniform 4x4 input of 0.4: the
    // output is the 2x2-periodic pattern the threshold formula gives.
    let matrix: Vec<u32> = vec![0, 32768, 49152, 16384];
    let config = BayerConfig::new(1, matrix, default_color_map());
    let v: u32 = 26214; // 0.4 in fixed point
    let input = Texture::from_slice(4, 4, 1, &[v; 16]);
    let output = run_strategy(BayerStrategy::Scalar, config, &input);
    // Thresholds per tile position: 1.0, 0.5 / 0.25, 0.75; black wins where
    // 0.4 < threshold, otherwise the fallback (white) is used.
    let expected_tile = [[BLACK, BLACK], [WHITE, BLACK]];
    for y in 0..4 {
        for x in 0..4 {
            assert_eq!(
                *output.get(y * 4 + x),
                expected_tile[y % 2][x % 2],
                "pixel ({}, {})",
                x,
                y
            );
        }
    }
}

#[test]
fn test_simd_fit_2_matches_scalar_3_colors() {
    // A randomly generated 100x100 grayscale image and a 3-entry randomized
    // palette: the fit strategy with 2 lanes must match the scalar scan
    // pixel for pixel.
    let gray = random_gray_image(100);
    let input = Texture::from_slice(100, 100, 1, &gray);
    let config = BayerConfig::new(1, bayer_matrix(1), random_color_map(3));
    let a = run_strategy(BayerStrategy::Scalar, config.clone(), &input);
    let b = run_strategy(BayerStrategy::Simd { lanes: 2 }, config, &input);
    assert_images_match(&a, &b, 100, "scalar", "simd-fit-2");
}

#[test]
fn test_simd_fit_8_matches_scalar_12_colors() {
    // The same image size with a 12-entry palette: the fit strategy with 8
    // lanes (one full and one padded pass) must match the scalar scan.
    let gray = random_gray_image(100);
    let input = Texture::from_slice(100, 100, 1, &gray);
    let config = BayerConfig::new(2, bayer_matrix(2), random_color_map(12));
    let a = run_strategy(BayerStrategy::Scalar, config.clone(), &input);
    let b = run_strategy(BayerStrategy::Simd { lanes: 8 }, config, &input);
    assert_images_match(&a, &b, 100, "scalar", "simd-fit-8");
}

#[test]
fn test_simd_fixed_matches_scalar_4_colors() {
    let gray = random_gray_image(64);
    let input = Texture::from_slice(64, 64, 1, &gray);
    let config = BayerConfig::new(3, bayer_matrix(3), random_color_map(4));
    let a = run_strategy(BayerStrategy::Scalar, config.clone(), &input);
    let b = run_strategy(BayerStrategy::SimdFixed { lanes: 4 }, config, &input);
    assert_images_match(&a, &b, 64, "scalar", "simd-fixed-4");
}

#[test]
fn test_simd_fit_16_matches_scalar_24_colors() {
    let gray = random_gray_image(50);
    let input = Texture::from_slice(50, 50, 1, &gray);
    let config = BayerConfig::new(1, bayer_matrix(1), random_color_map(24));
    let a = run_strategy(BayerStrategy::Scalar, config.clone(), &input);
    let b = run_strategy(BayerStrategy::Simd { lanes: 16 }, config, &input);
    assert_images_match(&a, &b, 50, "scalar", "simd-fit-16");
}

#[test]
fn test_parallel_apply_matches_sequential() {
    // The row-parallel driver and the in-order sequential driver promise
    // the same canonical output; check it on a real image.
    let gray = random_gray_image(100);
    let input = Texture::from_slice(100, 100, 1, &gray);
    let config = BayerConfig::new(2, bayer_matrix(2), random_color_map(7));
    let mut transform = BayerStrategy::Simd { lanes: 4 }.build(config);
    let mut out_par: Texture<RGB> = Texture::new(100, 100, 1);
    let mut out_seq: Texture<RGB> = Texture::new(100, 100, 1);
    transform.prepare(input.shape(), out_par.shape());
    transform.apply(&input, &mut out_par);
    transform.apply_sequential(&input, &mut out_seq);
    assert_images_match(&out_par, &out_seq, 100, "parallel", "sequential");
}

#[test]
fn test_repeated_apply_is_byte_identical() {
    let gray = random_gray_image(32);
    let input = Texture::from_slice(32, 32, 1, &gray);
    let config = BayerConfig::new(2, bayer_matrix(2), random_color_map(5));
    let mut transform = BayerStrategy::Simd { lanes: 4 }.build(config);
    let mut out1: Texture<RGB> = Texture::new(32, 32, 1);
    let mut out2: Texture<RGB> = Texture::new(32, 32, 1);
    transform.prepare(input.shape(), out1.shape());
    transform.apply(&input, &mut out1);
    transform.apply(&input, &mut out2);
    assert_images_match(&out1, &out2, 32, "first apply", "second apply");
}

#[test]
fn test_fallback_color_wins_at_or_above_every_threshold() {
    // With every threshold band capped at 0.5, a pixel value of exactly 0.5
    // or more hits no entry and must receive the last palette color.
    let red = RGB::from_u8(255, 0, 0, 255);
    let green = RGB::from_u8(0, 255, 0, 255);
    let blue = RGB::from_u8(0, 0, 255, 255);
    let map = vec![
        ColorMapElement { color: red, scale: UNIT / 2, offset: 0 },
        ColorMapElement { color: green, scale: 0, offset: UNIT / 2 },
        ColorMapElement { color: blue, scale: UNIT, offset: 0 },
    ];
    // The threshold matrix holds only 0.5, so the largest achievable
    // threshold of any entry is 0.5 (entry three: 0.5 * 1.0 + 0).
    let matrix: Vec<u32> = vec![32768, 32768, 32768, 32768];
    let config = BayerConfig::new(1, matrix, map);
    let half: u32 = 32768;
    let input = Texture::from_slice(2, 2, 1, &[half, half + 1, 65536, half]);
    let output = run_strategy(BayerStrategy::Scalar, config, &input);
    for i in 0..4 {
        assert_eq!(*output.get(i), blue, "pixel {}", i);
    }
}

#[test]
fn test_bayer_matrix_order_one_values() {
    // The order-1 matrix is the classic 2x2 pattern 0, 1/2 / 3/4, 1/4.
    assert_eq!(bayer_matrix(0), vec![0]);
    assert_eq!(bayer_matrix(1), vec![0, 32768, 49152, 16384]);
}

#[test]
fn test_bayer_matrix_order_two_is_a_permutation() {
    let m = bayer_matrix(2);
    assert_eq!(m.len(), 16);
    let mut ranks: Vec<u32> = m.iter().map(|v| v / 4096).collect();
    ranks.sort();
    let expected: Vec<u32> = (0..16).collect();
    assert_eq!(ranks, expected);
}

#[test]
fn test_bayer_idx_is_periodic() {
    // The matrix index repeats with the matrix side in both directions.
    let config = BayerConfig::new(2, bayer_matrix(2), default_color_map());
    let side = 4;
    for y in 0..8 {
        for x in 0..8 {
            let idx = config.bayer_idx(x, y);
            assert_eq!(config.bayer_idx(x + side, y), idx);
            assert_eq!(config.bayer_idx(x, y + side), idx);
        }
    }
}

#[test]
fn test_threshold_type_dither_in_place() {
    // Dither a uniform mid-gray image against the default palette: the
    // result holds only palette colors and both of them.
    let gray_pixel = RGB::from_u8(100, 100, 100, 255);
    let mut data = vec![gray_pixel; 8 * 8];
    ThresholdType::Bayer1.dither(&mut data, 8, 8, &default_color_map());
    assert!(data.iter().all(|p| *p == BLACK || *p == WHITE));
    assert!(data.iter().any(|p| *p == BLACK));
    assert!(data.iter().any(|p| *p == WHITE));
}

#[test]
fn test_dithering_type_matches_threshold_type() {
    let gray_pixel = RGB::from_u8(77, 150, 33, 255);
    let map = default_color_map();
    let mut a = vec![gray_pixel; 16 * 4];
    let mut b = vec![gray_pixel; 16 * 4];
    DitheringType::Bayer2.dither(&mut a, 16, 4, &map);
    ThresholdType::Bayer2.dither(&mut b, 16, 4, &map);
    assert_eq!(a, b);
}

#[test]
fn test_strategy_auto_and_names() {
    let config = BayerConfig::new(1, bayer_matrix(1), default_color_map());
    let strategy = BayerStrategy::auto(&config);
    // Two palette entries always admit a vectorized strategy.
    assert!(matches!(
        strategy,
        BayerStrategy::Simd { lanes: 2 } | BayerStrategy::SimdFixed { lanes: 2 }
    ));
    assert_eq!(BayerStrategy::Scalar.name(), "scalar");
    assert_eq!(BayerStrategy::Simd { lanes: 4 }.name(), "simd");
    assert_eq!(BayerStrategy::SimdFixed { lanes: 8 }.name(), "simd-fixed");
    // A degenerate palette falls back to the scalar scan.
    let one_color = vec![ColorMapElement { color: BLACK, scale: UNIT, offset: 0 }];
    let config = BayerConfig::new(1, bayer_matrix(1), one_color);
    assert!(matches!(BayerStrategy::auto(&config), BayerStrategy::Scalar));
}

#[test]
fn test_pipeline_grayscale_then_dither() {
    // Chain the two real transforms: RGB bytes -> gray plane -> palette
    // colors, through one pipeline with an owned intermediate buffer.
    let mut rng = rand::rng();
    let bytes: Vec<u8> = (0..8 * 8 * 3).map(|_| rng.random::<u8>()).collect();
    let input = Texture::from_slice(8, 8, 3, &bytes);
    let mut output: Texture<RGB> = Texture::new(8, 8, 1);

    let gray = GrayscaleTransform::Sequential.build();
    let config = BayerConfig::new(1, bayer_matrix(1), default_color_map());
    let dither = BayerStrategy::auto(&config).build(config);

    let mut pipeline = gray.pipe_with_shape(dither, (8, 8, 1));
    pipeline.prepare(input.shape(), output.shape());
    pipeline.apply(&input, &mut output);

    for i in 0..output.len() {
        let c = *output.get(i);
        assert!(c == BLACK || c == WHITE, "pixel {} is not a palette color", i);
    }
}

#[test]
fn test_auto_with_width_decision_table() {
    // Degenerate palettes scan sequentially.
    assert_eq!(BayerStrategy::auto_with_width(0, 8), BayerStrategy::Scalar);
    assert_eq!(BayerStrategy::auto_with_width(1, 8), BayerStrategy::Scalar);
    // A palette exactly as wide as the hardware uses the fixed strategy.
    assert_eq!(
        BayerStrategy::auto_with_width(8, 8),
        BayerStrategy::SimdFixed { lanes: 8 }
    );
    // Everything else fits lane-wide passes to the palette size.
    assert_eq!(
        BayerStrategy::auto_with_width(3, 8),
        BayerStrategy::Simd { lanes: 2 }
    );
    assert_eq!(
        BayerStrategy::auto_with_width(12, 16),
        BayerStrategy::Simd { lanes: 8 }
    );
    assert_eq!(
        BayerStrategy::auto_with_width(24, 4),
        BayerStrategy::Simd { lanes: 16 }
    );
    // A palette too wide for any lane count falls back to the scalar scan.
    assert_eq!(BayerStrategy::auto_with_width(100, 16), BayerStrategy::Scalar);
}

#[test]
fn test_first_entry_wins_ties() {
    // Two entries with identical bands: the first one in palette order wins
    // everywhere a hit occurs.
    let red = RGB::from_u8(255, 0, 0, 255);
    let green = RGB::from_u8(0, 255, 0, 255);
    let map = vec![
        ColorMapElement { color: red, scale: UNIT, offset: 0 },
        ColorMapElement { color: green, scale: UNIT, offset: 0 },
    ];
    let config = BayerConfig::new(1, bayer_matrix(1), map);
    let input = Texture::from_slice(2, 2, 1, &[0u32; 4]);
    let scalar = run_strategy(BayerStrategy::Scalar, config.clone(), &input);
    let fixed = run_strategy(BayerStrategy::SimdFixed { lanes: 2 }, config, &input);
    for i in 0..4 {
        // Every tile threshold is positive, so both entries hit; the first
        // one must win.
        assert_ne!(*scalar.get(i), green);
        assert_eq!(*scalar.get(i), red);
        assert_eq!(*scalar.get(i), *fixed.get(i));
    }
}
