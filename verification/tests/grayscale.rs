use ditherpunker::texture::{Texture, TextureRef};
use ditherpunker::transform::grayscale::{GrayscaleTransform, SRGB_LUMA_B, SRGB_LUMA_G, SRGB_LUMA_R};
use ditherpunker::transform::traits::TextureTransform;
use rand::RngExt;

fn expected_gray(r: u8, g: u8, b: u8) -> u32 {
    (r as u32 * SRGB_LUMA_R + g as u32 * SRGB_LUMA_G + b as u32 * SRGB_LUMA_B) / 255
}

#[test]
fn test_grayscale_seq_rgb_values() {
    let bytes: Vec<u8> = vec![
        255, 0, 0, // red
        0, 255, 0, // green
        0, 0, 255, // blue
        128, 128, 128, // gray
    ];
    let input = Texture::from_slice(2, 2, 3, &bytes);
    let mut output: Texture<u32> = Texture::new(2, 2, 1);
    let mut t = GrayscaleTransform::Sequential.build();
    t.prepare(input.shape(), output.shape());
    t.apply(&input, &mut output);
    let expected = [
        expected_gray(255, 0, 0),
        expected_gray(0, 255, 0),
        expected_gray(0, 0, 255),
        expected_gray(128, 128, 128),
    ];
    for i in 0..4 {
        assert_eq!(*output.get(i), expected[i], "pixel {}", i);
    }
}

#[test]
fn test_grayscale_seq_rgba_ignores_alpha() {
    let bytes: Vec<u8> = vec![255, 0, 0, 255, 0, 255, 0, 128, 0, 0, 255, 0, 10, 20, 30, 40];
    let input = Texture::from_slice(2, 2, 4, &bytes);
    let mut output: Texture<u32> = Texture::new(2, 2, 1);
    let mut t = GrayscaleTransform::Sequential.build();
    t.prepare(input.shape(), output.shape());
    t.apply(&input, &mut output);
    assert_eq!(*output.get(0), expected_gray(255, 0, 0));
    assert_eq!(*output.get(1), expected_gray(0, 255, 0));
    assert_eq!(*output.get(2), expected_gray(0, 0, 255));
    assert_eq!(*output.get(3), expected_gray(10, 20, 30));
}

#[test]
fn test_grayscale_seq_matches_par() {
    let mut rng = rand::rng();
    let width = 500usize;
    let height = 3usize;
    let bytes: Vec<u8> = (0..width * height * 3).map(|_| rng.random::<u8>()).collect();
    let input = Texture::from_slice(width as u32, height as u32, 3, &bytes);
    let mut out_seq: Texture<u32> = Texture::new(width as u32, height as u32, 1);
    let mut out_par: Texture<u32> = Texture::new(width as u32, height as u32, 1);
    let mut seq_t = GrayscaleTransform::Sequential.build();
    let mut par_t = GrayscaleTransform::Parallel.build();
    seq_t.prepare(input.shape(), out_seq.shape());
    seq_t.apply(&input, &mut out_seq);
    par_t.prepare(input.shape(), out_par.shape());
    par_t.apply(&input, &mut out_par);
    for i in 0..width * height {
        assert_eq!(*out_seq.get(i), *out_par.get(i), "pixel {}", i);
    }
}

#[test]
fn test_grayscale_auto_thresholds() {
    assert!(matches!(
        GrayscaleTransform::auto((100, 100)),
        GrayscaleTransform::Sequential
    ));
    assert!(matches!(
        GrayscaleTransform::auto((449, 100000)),
        GrayscaleTransform::Sequential
    ));
    assert!(matches!(
        GrayscaleTransform::auto((450, 450)),
        GrayscaleTransform::Parallel
    ));
}
