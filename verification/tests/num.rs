use ditherpunker::dithering::threshold::bayer_transform::BayerStrategy;
use ditherpunker::utils::num::closest_pow_2;

#[test]
fn test_closest_pow_2_zero() {
    assert_eq!(closest_pow_2(0), 1);
}

#[test]
fn test_closest_pow_2_exact_powers() {
    assert_eq!(closest_pow_2(1), 1);
    assert_eq!(closest_pow_2(2), 2);
    assert_eq!(closest_pow_2(4), 4);
    assert_eq!(closest_pow_2(8), 8);
    assert_eq!(closest_pow_2(16), 16);
    assert_eq!(closest_pow_2(32), 32);
    assert_eq!(closest_pow_2(64), 64);
    assert_eq!(closest_pow_2(128), 128);
    assert_eq!(closest_pow_2(256), 256);
    assert_eq!(closest_pow_2(1024), 1024);
}

#[test]
fn test_closest_pow_2_prefer_lower() {
    // When the distance is equal, prefer the lower power of 2.
    assert_eq!(closest_pow_2(3), 2); // 3-2=1, 4-3=1, prefer lower
    assert_eq!(closest_pow_2(6), 4); // 6-4=2, 8-6=2, prefer lower
    assert_eq!(closest_pow_2(12), 8); // 12-8=4, 16-12=4, prefer lower
    assert_eq!(closest_pow_2(24), 16); // 24-16=8, 32-24=8, prefer lower
}

#[test]
fn test_closest_pow_2_closer_to_lower() {
    assert_eq!(closest_pow_2(5), 4); // 5-4=1, 8-5=3, choose 4
    assert_eq!(closest_pow_2(9), 8); // 9-8=1, 16-9=7, choose 8
    assert_eq!(closest_pow_2(17), 16); // 17-16=1, 32-17=15, choose 16
    assert_eq!(closest_pow_2(33), 32); // 33-32=1, 64-33=31, choose 32
}

#[test]
fn test_closest_pow_2_closer_to_upper() {
    assert_eq!(closest_pow_2(7), 8); // 7-4=3, 8-7=1, choose 8
    assert_eq!(closest_pow_2(15), 16); // 15-8=7, 16-15=1, choose 16
    assert_eq!(closest_pow_2(31), 32); // 31-16=15, 32-31=1, choose 32
    assert_eq!(closest_pow_2(63), 64); // 63-32=31, 64-63=1, choose 64
}

#[test]
fn test_closest_pow_2_max_value() {
    // Maximum value: no upper power of 2 is available.
    assert_eq!(closest_pow_2(u64::MAX as usize), 1usize << 63);
    // A value near the maximum.
    assert_eq!(closest_pow_2((1usize << 63) + 1), 1usize << 63);
}

#[test]
fn test_closest_pow_2_different_integer_types() {
    assert_eq!(closest_pow_2(10u8 as usize), 8);
    assert_eq!(closest_pow_2(10u16 as usize), 8);
    assert_eq!(closest_pow_2(10u32 as usize), 8);
    assert_eq!(closest_pow_2(10u64 as usize), 8);
    assert_eq!(closest_pow_2(10usize), 8);
}

#[test]
fn test_closest_pow_2_large_values() {
    assert_eq!(closest_pow_2(1000), 1024); // 1000-512=488, 1024-1000=24
    assert_eq!(closest_pow_2(2000), 2048); // 2000-1024=976, 2048-2000=48
    assert_eq!(closest_pow_2(100000), 131072); // closer to the upper power
    assert_eq!(closest_pow_2(1000000), 1048576); // closer to the upper power
}

#[test]
fn test_lanes_fit_literal_cases() {
    assert_eq!(BayerStrategy::lanes_fit(3), 2);
    assert_eq!(BayerStrategy::lanes_fit(5), 4);
    assert_eq!(BayerStrategy::lanes_fit(7), 4);
    assert_eq!(BayerStrategy::lanes_fit(12), 8);
    assert_eq!(BayerStrategy::lanes_fit(24), 16);
}
