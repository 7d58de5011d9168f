pub mod bayer_transform;
pub mod matrices;
pub(crate) mod multi_impl;

use vstd::prelude::*;

use crate::dithering::threshold::bayer_transform::{
    dither_pixel, output_image, BayerConfig, BayerStrategy, BayerTransform,
};
use crate::dithering::threshold::matrices::{bayer_entry, bayer_matrix};
use crate::texture::{Texture, TextureRef};
use crate::transform::traits::TextureTransform;
use crate::utils::num::UNIT;
use crate::utils::pixel::{luma_of, map_wf, ColorMapElement, RGB};

verus! {

/// The kind of threshold pattern used for ordered dithering.
#[derive(Debug, Clone, Copy, PartialEq, Eq, Structural)]
pub enum ThresholdType {
    Rand,
    Bayer0,
    Bayer1,
    Bayer2,
    Bayer3,
    BlueNoise,
}

/// The matrix order of each ordered pattern: the matrix is `2^order` square.
pub open spec fn threshold_order(t: ThresholdType) -> usize {
    match t {
        ThresholdType::Rand => 0,
        ThresholdType::Bayer0 => 1,
        ThresholdType::Bayer1 => 2,
        ThresholdType::Bayer2 => 3,
        ThresholdType::Bayer3 => 4,
        ThresholdType::BlueNoise => 0,
    }
}

/// The bit mask that reduces a coordinate modulo the matrix side.
pub open spec fn tile_mask(order: usize) -> usize {
    ((1usize << order) - 1) as usize
}

/// Matrix index of pixel `(x, y)` under the periodic tiling.
pub open spec fn tile_index(x: usize, y: usize, order: usize) -> int {
    (y & tile_mask(order)) * (tile_mask(order) + 1) + (x & tile_mask(order))
}

/// The order-`order` threshold matrix as one flat row-major sequence.
pub open spec fn bayer_matrix_flat(order: usize) -> Seq<u32> {
    let side = (1usize << order) as int;
    Seq::new((side * side) as nat, |i: int| bayer_entry(i % side, i / side, order as nat) as u32)
}

/// What ordered dithering does to an image of RGB pixels: each pixel's gray
/// value is classified against the palette under the threshold that the
/// periodic matrix assigns to its position.
pub open spec fn dithered_image(
    order: usize,
    map: Seq<ColorMapElement>,
    data: Seq<RGB>,
    width: int,
) -> Seq<RGB> {
    Seq::new(
        data.len(),
        |i: int|
            dither_pixel(
                map,
                luma_of(data[i].r, data[i].g, data[i].b),
                UNIT - bayer_matrix_flat(order)[tile_index(
                    (i % width) as usize,
                    (i / width) as usize,
                    order,
                )],
            ),
    )
}

/// A row-major matrix whose 2D entries are the order-`order` threshold
/// values is, flattened, exactly `bayer_matrix_flat(order)`.
proof fn lemma_matrix_flat(m: Seq<u32>, order: usize)
    requires
        order <= 8,
        m.len() == (1usize << order) * (1usize << order),
        forall|y: int, x: int|
            0 <= y < (1usize << order) && 0 <= x < (1usize << order) ==> #[trigger] m[y * (
            1usize << order) + x] == bayer_entry(x, y, order as nat),
    ensures
        m == bayer_matrix_flat(order),
{
    let side = (1usize << order) as int;
    assert(side >= 1) by {
        assert(1usize << order >= 1) by (bit_vector)
            requires
                order <= 8,
        ;
    }
    assert forall|i: int| 0 <= i < m.len() implies m[i] == bayer_matrix_flat(order)[i] by {
        let yy = i / side;
        let xx = i % side;
        vstd::arithmetic::div_mod::lemma_fundamental_div_mod(i, side);
        vstd::arithmetic::div_mod::lemma_mod_bound(i, side);
        assert(0 <= yy < side) by (nonlinear_arith)
            requires
                0 <= i < side * side,
                side >= 1,
                i == side * yy + xx,
                0 <= xx < side,
        ;
        assert(m[yy * side + xx] == bayer_entry(xx, yy, order as nat));
    }
    assert(m =~= bayer_matrix_flat(order));
}

impl ThresholdType {
    /// The ordered patterns; random and blue-noise thresholds require
    /// pre-processing that this engine does not provide.
    pub open spec fn is_ordered(self) -> bool {
        self is Bayer0 || self is Bayer1 || self is Bayer2 || self is Bayer3
    }

    /// The configuration this pattern dithers with: the generated threshold
    /// matrix of its order, and the given palette.
    pub fn to_transform_config(&self, color_map: Vec<ColorMapElement>) -> (c: BayerConfig)
        requires
            self.is_ordered(),
            map_wf(color_map@),
            color_map@.len() >= 1,
        ensures
            c.wf(),
            c.map == color_map,
            c.order == threshold_order(*self),
            c.side_mask == tile_mask(threshold_order(*self)),
            c.matrix@ == bayer_matrix_flat(threshold_order(*self)),
    {
        let order: usize = match self {
            ThresholdType::Bayer0 => 1,
            ThresholdType::Bayer1 => 2,
            ThresholdType::Bayer2 => 3,
            ThresholdType::Bayer3 => 4,
            _ => 1,
        };
        let matrix = bayer_matrix(order);
        proof {
            lemma_matrix_flat(matrix@, order);
        }
        let c = BayerConfig::new(order, matrix, color_map);
        proof {
            assert(c.side_mask == tile_mask(order));
        }
        c
    }

    /// Build the auto-selected transform for this pattern and palette.
    pub fn to_transform(&self, color_map: Vec<ColorMapElement>) -> (t: BayerTransform)
        requires
            self.is_ordered(),
            map_wf(color_map@),
            color_map@.len() >= 1,
            color_map@.len() + 16 <= usize::MAX,
        ensures
            t.wf(),
            t.spec_config().wf(),
            t.spec_config().map == color_map,
            t.spec_config().order == threshold_order(*self),
            t.spec_config().side_mask == tile_mask(threshold_order(*self)),
            t.spec_config().matrix@ == bayer_matrix_flat(threshold_order(*self)),
    {
        let config = self.to_transform_config(color_map);
        let strategy = BayerStrategy::auto(&config);
        strategy.build(config)
    }

    /// Quickly dither one image in place: compute each pixel's gray value,
    /// classify it under this pattern's matrix, and write the palette color.
    pub fn dither(
        self,
        data: &mut Vec<RGB>,
        width: u32,
        height: u32,
        color_map: &Vec<ColorMapElement>,
    )
        requires
            self.is_ordered(),
            map_wf(color_map@),
            color_map@.len() >= 1,
            color_map@.len() + 16 <= usize::MAX,
            old(data)@.len() == width * height,
            width >= 1,
            height >= 1,
            16 * (width as int) <= usize::MAX,
        ensures
            final(data)@ == dithered_image(
                threshold_order(self),
                color_map@,
                old(data)@,
                width as int,
            ),
    {
        let n = data.len();
        // The gray plane of the image, in fixed point.
        let mut gray: Vec<u32> = Vec::new();
        let mut i: usize = 0;
        while i < n
            invariant
                i <= n,
                n == data@.len(),
                data@ == old(data)@,
                gray@.len() == i,
                forall|j: int|
                    0 <= j < i ==> #[trigger] gray@[j] == luma_of(
                        data@[j].r,
                        data@[j].g,
                        data@[j].b,
                    ),
                forall|j: int| 0 <= j < i ==> #[trigger] gray@[j] <= UNIT,
            decreases n - i,
        {
            let px = data[i];
            gray.push(px.grayscale());
            i = i + 1;
        }
        let mut map_copy: Vec<ColorMapElement> = Vec::new();
        let mut i: usize = 0;
        while i < color_map.len()
            invariant
                i <= color_map@.len(),
                map_copy@ == color_map@.subrange(0, i as int),
            decreases color_map@.len() - i,
        {
            map_copy.push(color_map[i]);
            proof {
                assert(map_copy@ =~= color_map@.subrange(0, i + 1));
            }
            i = i + 1;
        }
        proof {
            assert(map_copy@ =~= color_map@);
        }
        let mut transform = self.to_transform(map_copy);
        let ghost cfg = transform.spec_config();
        let input = Texture::from_slice(width, height, 1, gray.as_slice());
        let mut output: Texture<RGB> = Texture::new(width, height, 1);
        proof {
            // The matrix side never exceeds 16, so the tiled cache fits.
            let order = threshold_order(self);
            assert((1usize << order) <= 16) by (bit_vector)
                requires
                    order <= 4,
            ;
            assert((cfg.side_mask + 1) * input.spec_shape().0 <= 16 * (width as int))
                by (nonlinear_arith)
                requires
                    0 <= cfg.side_mask + 1 <= 16,
                    input.spec_shape().0 == width as int,
                    width >= 0,
            ;
        }
        let in_shape = input.shape();
        let out_shape = output.shape();
        transform.prepare(in_shape, out_shape);
        transform.apply(&input, &mut output);
        // Write the classified colors back into the caller's buffer.
        let mut i: usize = 0;
        while i < n
            invariant
                i <= n,
                n == data@.len(),
                n == output@.len(),
                data@.len() == old(data)@.len(),
                forall|j: int| 0 <= j < i ==> #[trigger] data@[j] == output@[j],
            decreases n - i,
        {
            let c = *output.get(i);
            data[i] = c;
            i = i + 1;
        }
        proof {
            assert(data@ =~= output@);
            // The transform's canonical output is exactly the dithered image.
            let w = width as int;
            let out_spec = output_image(&cfg, gray@, w);
            let want = dithered_image(threshold_order(self), color_map@, old(data)@, w);
            assert forall|j: int| 0 <= j < n implies out_spec[j] == want[j] by {
                assert(gray@[j] == luma_of(old(data)@[j].r, old(data)@[j].g, old(data)@[j].b));
                assert(gray@[j] <= UNIT);
                assert(cfg.spec_bayer_idx(((j % w) as usize), ((j / w) as usize)) == tile_index(
                    (j % w) as usize,
                    (j / w) as usize,
                    threshold_order(self),
                ));
            }
            assert(out_spec =~= want);
        }
    }
}

} // verus!
