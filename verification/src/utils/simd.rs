use vstd::prelude::*;

use crate::utils::num::is_pow_2;

verus! {

/// Hardware-suggested number of vector lanes for four-byte samples.
///
/// Relies on `TargetFeatures::enabled_for_target` and
/// `TargetFeatures::suggested_simd_width` of the target-features crate
/// (re-exported by multiversion): for a four-byte element every architecture
/// branch suggests a power-of-two vector of 128 to 1024 bits — 4 to 32
/// lanes — except the variable-length vector sets, whose minimum lengths
/// span 32 to 65536 bits — 1 to 2048 lanes; a missing suggestion becomes 0.
#[verifier::external_body]
pub fn suggested_simd_width() -> (w: usize)
    ensures
        w == 0 || (is_pow_2(w as nat) && w <= 2048),
{
    multiversion::target_features::TargetFeatures::enabled_for_target()
        .suggested_simd_width::<u32>()
        .unwrap_or(0)
}

} // verus!
