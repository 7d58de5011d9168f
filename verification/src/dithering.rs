pub mod error_diffusion;
pub mod threshold;

use vstd::prelude::*;

use crate::dithering::threshold::{dithered_image, threshold_order, ThresholdType};
use crate::utils::pixel::{map_wf, ColorMapElement, RGB};

verus! {

/// The dithering algorithm to apply.
///
/// The ordered (threshold) variants are implemented by this engine; the
/// error-diffusion variants belong to a collaborator and are not accepted
/// here.
#[derive(Debug, Clone, Copy, PartialEq, Eq, Structural)]
pub enum DitheringType {
    Rand,
    Bayer0,
    Bayer1,
    Bayer2,
    Bayer3,
    BlueNoise,
    FloydSteinberg,
    JarvisJudiceNinke,
    Atkinson,
}

impl DitheringType {
    /// The ordered variants this engine implements.
    pub open spec fn is_ordered(self) -> bool {
        self is Bayer0 || self is Bayer1 || self is Bayer2 || self is Bayer3
    }

    /// The threshold pattern of an ordered variant.
    pub open spec fn spec_threshold_type(self) -> ThresholdType {
        match self {
            DitheringType::Bayer0 => ThresholdType::Bayer0,
            DitheringType::Bayer1 => ThresholdType::Bayer1,
            DitheringType::Bayer2 => ThresholdType::Bayer2,
            DitheringType::Bayer3 => ThresholdType::Bayer3,
            _ => ThresholdType::Rand,
        }
    }

    /// Dither one image in place with the chosen ordered pattern.
    pub fn dither(
        &self,
        data: &mut Vec<RGB>,
        width: u32,
        height: u32,
        color_map: &Vec<ColorMapElement>,
    )
        requires
            self.is_ordered(),
            map_wf(color_map@),
            color_map@.len() >= 1,
            color_map@.len() + 16 <= usize::MAX,
            old(data)@.len() == width * height,
            width >= 1,
            height >= 1,
            16 * (width as int) <= usize::MAX,
        ensures
            final(data)@ == dithered_image(
                threshold_order(self.spec_threshold_type()),
                color_map@,
                old(data)@,
                width as int,
            ),
    {
        let t = match self {
            DitheringType::Bayer0 => ThresholdType::Bayer0,
            DitheringType::Bayer1 => ThresholdType::Bayer1,
            DitheringType::Bayer2 => ThresholdType::Bayer2,
            DitheringType::Bayer3 => ThresholdType::Bayer3,
            _ => ThresholdType::Bayer0,
        };
        t.dither(data, width, height, color_map);
    }
}

} // verus!
