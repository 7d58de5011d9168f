use vstd::prelude::*;

use rayon::iter::{IndexedParallelIterator, ParallelIterator};
use rayon::slice::{ParallelSlice, ParallelSliceMut};

use crate::texture::{Shape, Shape2D, Texture, TextureRef};
use crate::transform::traits::TextureTransform;
use crate::utils::num::UNIT;

verus! {

/// Fixed-point luma weights (Rec. 709), scaled by `UNIT`; they sum to `UNIT`
/// exactly.
pub const SRGB_LUMA_R: u32 = 13933;

pub const SRGB_LUMA_G: u32 = 46871;

pub const SRGB_LUMA_B: u32 = 4732;

/// The fixed-point gray value of pixel `i` of an interleaved byte image.
pub open spec fn gray_of(input: Seq<u8>, planes: int, i: int) -> int {
    (input[planes * i] * SRGB_LUMA_R + input[planes * i + 1] * SRGB_LUMA_G + input[planes * i + 2]
        * SRGB_LUMA_B) / 255
}

/// The gray plane of an interleaved byte image with `count` pixels.
pub open spec fn gray_image(input: Seq<u8>, planes: int, count: int) -> Seq<u32> {
    Seq::new(count as nat, |i: int| gray_of(input, planes, i) as u32)
}

/// Luma of one interleaved pixel starting at byte `idx`.
fn luma_at(input: &Vec<u8>, idx: usize) -> (v: u32)
    requires
        idx + 2 < input@.len(),
    ensures
        v == (input@[idx as int] * SRGB_LUMA_R + input@[idx as int + 1] * SRGB_LUMA_G + input@[idx
            as int + 2] * SRGB_LUMA_B) / 255,
        v <= UNIT,
{
    let n = input.len();
    let acc: u32 = (input[idx] as u32) * SRGB_LUMA_R + (input[idx + 1] as u32) * SRGB_LUMA_G + (
    input[idx + 2] as u32) * SRGB_LUMA_B;
    proof {
        assert(acc / 255 <= UNIT) by {
            assert(acc <= 255 * (SRGB_LUMA_R + SRGB_LUMA_G + SRGB_LUMA_B));
        };
    }
    acc / 255
}

/// Grayscale conversion strategy.
#[derive(Debug, Clone, Copy, PartialEq, Eq, Structural)]
pub enum GrayscaleTransform {
    Sequential,
    Parallel,
}

/// The selection rule: small images are converted sequentially, large ones
/// row-parallel.
pub open spec fn auto_gray_spec(shape_hint: Shape2D) -> GrayscaleTransform {
    if shape_hint.0 < 450 || shape_hint.0 * shape_hint.1 < 202500 {
        GrayscaleTransform::Sequential
    } else {
        GrayscaleTransform::Parallel
    }
}

impl GrayscaleTransform {
    /// Pick a strategy from the image size.
    pub fn auto(shape_hint: Shape2D) -> (s: GrayscaleTransform)
        requires
            shape_hint.0 * shape_hint.1 <= usize::MAX,
        ensures
            s == auto_gray_spec(shape_hint),
    {
        let (width, height) = shape_hint;
        let count = width * height;
        if width < 450 || count < 202500 {
            return GrayscaleTransform::Sequential;
        }
        GrayscaleTransform::Parallel
    }

    /// The transform instance of this strategy.
    pub fn build(&self) -> (t: GrayscaleImpl)
        ensures
            t.wf(),
            (*self is Sequential) == (t is Sequential),
    {
        match self {
            GrayscaleTransform::Sequential => GrayscaleImpl::Sequential,
            GrayscaleTransform::Parallel => GrayscaleImpl::Parallel,
        }
    }
}

/// The grayscale transform: interleaved RGB or RGBA bytes in, one fixed-point
/// gray plane out.
pub enum GrayscaleImpl {
    Sequential,
    Parallel,
}

impl TextureTransform for GrayscaleImpl {
    type Input = u8;

    type Output = u32;

    open spec fn wf(&self) -> bool {
        true
    }

    open spec fn shapes_ok(&self, in_shape: Shape, out_shape: Shape) -> bool {
        &&& in_shape.0 == out_shape.0
        &&& in_shape.1 == out_shape.1
        &&& out_shape.2 == 1
        &&& (in_shape.2 == 3 || in_shape.2 == 4)
        &&& in_shape.0 >= 1
    }

    open spec fn prepared(&self, in_shape: Shape, out_shape: Shape) -> bool {
        self.shapes_ok(in_shape, out_shape)
    }

    open spec fn output_of(&self, input: Seq<u8>, in_shape: Shape, out_shape: Shape) -> Seq<u32> {
        gray_image(input, in_shape.2 as int, in_shape.0 * in_shape.1)
    }

    /// Grayscale conversion needs no per-shape precomputation.
    fn prepare(&mut self, in_shape: Shape, out_shape: Shape) {
    }

    fn apply(&mut self, input: &Texture<u8>, output: &mut Texture<u32>) {
        let width = input.width() as usize;
        let height = input.height() as usize;
        let planes = input.planes() as usize;
        let count: usize = output.len();
        let in_len: usize = input.len();
        proof {
            assert(count == width * height * 1);
            assert(width * height * 1 == width * height) by (nonlinear_arith);
            assert(input@.len() == width * height * planes);
            assert(width * height * planes == count * planes) by (nonlinear_arith)
                requires
                    count == width * height,
            ;
        }
        match self {
            GrayscaleImpl::Sequential => {
                let mut plane: Vec<u32> = Vec::new();
                let mut i: usize = 0;
                while i < count
                    invariant
                        i <= count,
                        planes == 3 || planes == 4,
                        in_len == input@.len(),
                        input@.len() == count * planes,
                        plane@.len() == i,
                        forall|j: int|
                            0 <= j < i ==> #[trigger] plane@[j] == gray_of(
                                input@,
                                planes as int,
                                j,
                            ),
                    decreases count - i,
                {
                    proof {
                        assert(i * planes + planes <= count * planes) by (nonlinear_arith)
                            requires
                                0 <= i < count,
                                planes >= 3,
                        ;
                    }
                    let v = luma_at(input.buffer(), i * planes);
                    plane.push(v);
                    proof {
                        assert((planes * i) as int == (i * planes) as int) by (nonlinear_arith);
                        assert(plane@[i as int] == gray_of(input@, planes as int, i as int));
                    }
                    i = i + 1;
                }
                output.copy_from_slice(plane.as_slice());
                proof {
                    assert(output@ =~= gray_image(input@, planes as int, count as int));
                }
            },
            GrayscaleImpl::Parallel => {
                if count >= 1 {
                    proof {
                        assert(((width * height) as int) % (width as int) == 0)
                            by (nonlinear_arith)
                            requires
                                width >= 1,
                        ;
                        // A non-empty image has at least one row, so one
                        // row's bytes fit.
                        assert(height >= 1) by (nonlinear_arith)
                            requires
                                count == width * height,
                                count >= 1,
                        ;
                        assert(width * planes <= count * planes) by (nonlinear_arith)
                            requires
                                count == width * height,
                                height >= 1,
                                width >= 0,
                                planes >= 0,
                        ;
                    }
                    let out_buf = output.buffer_mut();
                    par_gray_rows(input.buffer(), planes, width, out_buf);
                }
                proof {
                    assert(output@ =~= gray_image(input@, planes as int, count as int));
                }
            },
        }
    }
}

/// One row of the gray plane, from the row's interleaved bytes.
fn gray_row(irow: &[u8], planes: usize, width: usize) -> (row: Vec<u32>)
    requires
        planes == 3 || planes == 4,
        irow@.len() == width * planes,
    ensures
        row@.len() == width,
        forall|x: int| 0 <= x < width ==> #[trigger] row@[x] == gray_of(irow@, planes as int, x),
{
    let n = irow.len();
    let mut row: Vec<u32> = Vec::new();
    let mut x: usize = 0;
    while x < width
        invariant
            x <= width,
            planes == 3 || planes == 4,
            n == irow@.len(),
            irow@.len() == width * planes,
            row@.len() == x,
            forall|j: int| 0 <= j < x ==> #[trigger] row@[j] == gray_of(irow@, planes as int, j),
        decreases width - x,
    {
        proof {
            assert(x * planes + planes <= width * planes) by (nonlinear_arith)
                requires
                    0 <= x < width,
                    planes >= 3,
            ;
        }
        let idx = x * planes;
        let acc: u32 = (irow[idx] as u32) * SRGB_LUMA_R + (irow[idx + 1] as u32) * SRGB_LUMA_G + (
        irow[idx + 2] as u32) * SRGB_LUMA_B;
        row.push(acc / 255);
        proof {
            assert((planes * x) as int == (x * planes) as int) by (nonlinear_arith);
            assert(row@[x as int] == gray_of(irow@, planes as int, x as int));
        }
        x = x + 1;
    }
    row
}

/// Convert every row of the image in parallel.
///
/// Relies on rayon's `par_chunks_exact_mut` zipped with `par_chunks_exact`:
/// because `out` splits into exactly `out.len() / width` chunks of `width`
/// gray values and `input` into as many chunks of `width * planes` bytes,
/// `zip` pairs each output row with the input row of the same index, and the
/// closure fills it through the verified row kernel `gray_row`.
#[verifier::external_body]
fn par_gray_rows(input: &Vec<u8>, planes: usize, width: usize, out: &mut Vec<u32>)
    requires
        planes == 3 || planes == 4,
        width >= 1,
        width * planes <= usize::MAX,
        (old(out)@.len() as int) % (width as int) == 0,
        input@.len() == old(out)@.len() * planes,
    ensures
        final(out)@ == gray_image(input@, planes as int, old(out)@.len() as int),
{
    out.par_chunks_exact_mut(width).zip(input.par_chunks_exact(width * planes)).for_each(
        |(orow, irow)| {
            let row = gray_row(irow, planes, width);
            orow.copy_from_slice(&row);
        },
    );
}

} // verus!
