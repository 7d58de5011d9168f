pub mod grayscale;
pub mod pipe;
pub mod traits;
