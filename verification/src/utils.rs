pub mod iterator;
pub mod num;
pub mod pixel;
pub mod simd;
