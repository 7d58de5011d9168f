use vstd::prelude::*;

use rayon::iter::{IndexedParallelIterator, ParallelIterator};
use rayon::slice::ParallelSliceMut;

use crate::dithering::threshold::bayer_transform::{
    dither_row, kernel_wf, output_image, tiled_wf, BayerConfig, Kernel,
};

verus! {

/// Dither every row of the image into `out`, rows in parallel.
///
/// Relies on rayon's `ParallelSliceMut::par_chunks_mut` with `enumerate` and
/// `for_each`: the closure runs exactly once for each disjoint `width`-sized
/// chunk of `out`, and the chunk with index `y` is `out[y*width..(y+1)*width]`.
/// The closure only calls the verified row kernel `dither_row` and copies its
/// result into the row's chunk, so each output pixel is the canonical one
/// whatever the scheduling order.
#[verifier::external_body]
pub(crate) fn par_dither_rows(
    config: &BayerConfig,
    kernel: &Kernel,
    input: &Vec<u32>,
    tiled: &Vec<u32>,
    width: usize,
    out: &mut Vec<crate::utils::pixel::RGB>,
)
    requires
        config.wf(),
        kernel_wf(kernel, config.map@),
        tiled_wf(config, tiled@, width as int),
        width >= 1,
        old(out)@.len() == input@.len(),
        (input@.len() as int) % (width as int) == 0,
    ensures
        final(out)@ == output_image(config, input@, width as int),
{
    out.par_chunks_mut(width).enumerate().for_each(|(y, chunk)| {
        let row = dither_row(config, kernel, input, tiled, width, y);
        chunk.copy_from_slice(&row);
    });
}

} // verus!
