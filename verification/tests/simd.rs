use ditherpunker::utils::simd::suggested_simd_width;

#[test]
fn test_suggested_simd_width() {
    let w = suggested_simd_width();
    println!("u32: {}", w);
    assert!(w == 0 || w == 4 || w == 8 || w == 16 || w == 32);
}
