use vstd::prelude::*;

verus! {

/// The kind of error-diffusion kernel. Diffusing quantization error is an
/// alternate path that a collaborator provides; this engine only carries the
/// choice and the offset geometry below.
#[derive(Debug, Clone, Copy, PartialEq, Eq, Structural)]
pub enum ErrorDiffusionType {
    FloydSteinberg,
    JarvisJudiceNinke,
    Atkinson,
}

/// For each cell of a diffusion matrix, the signed flat-buffer distance from
/// the pixel being quantized to the pixel that receives that cell's share of
/// the error: cell `(i, j)` of a matrix `cols` wide, on an image `width`
/// pixels wide, lands `width * i + j - origin` positions away.
pub fn calculate_offset_matrix(matrix_dimensions: [usize; 2], width: u32, origin: usize) -> (r:
    Vec<isize>)
    requires
        (width as int) * (matrix_dimensions[1] as int) + (matrix_dimensions[0] as int)
            <= isize::MAX,
        width <= isize::MAX,
        matrix_dimensions[0] <= isize::MAX,
        matrix_dimensions[1] <= isize::MAX,
        origin <= isize::MAX,
    ensures
        r@.len() == matrix_dimensions[0] * matrix_dimensions[1],
        forall|i: int, j: int|
            0 <= i < matrix_dimensions[1] && 0 <= j < matrix_dimensions[0]
                ==> #[trigger] r@[i * matrix_dimensions[0] + j] == (width as int) * i + j - origin,
{
    let cols = matrix_dimensions[0];
    let rows = matrix_dimensions[1];
    let mut offsets: Vec<isize> = Vec::new();
    let mut index_i: usize = 0;
    while index_i < rows
        invariant
            index_i <= rows,
            cols == matrix_dimensions[0],
            rows == matrix_dimensions[1],
            (width as int) * (rows as int) + (cols as int) <= isize::MAX,
            width <= isize::MAX,
            rows <= isize::MAX,
            cols <= isize::MAX,
            origin <= isize::MAX,
            offsets@.len() == index_i * cols,
            forall|i: int, j: int|
                0 <= i < index_i && 0 <= j < cols ==> #[trigger] offsets@[i * cols + j] == (
                width as int) * i + j - origin,
        decreases rows - index_i,
    {
        proof {
            assert((index_i + 1) * cols == index_i * cols + cols) by (nonlinear_arith);
            assert((width as int) * (index_i as int) <= (width as int) * (rows as int))
                by (nonlinear_arith)
                requires
                    0 <= index_i < rows,
                    width >= 0,
            ;
        }
        let mut index_j: usize = 0;
        while index_j < cols
            invariant
                index_j <= cols,
                index_i < rows,
                cols == matrix_dimensions[0],
                rows == matrix_dimensions[1],
                (width as int) * (rows as int) + (cols as int) <= isize::MAX,
                (width as int) * (index_i as int) <= (width as int) * (rows as int),
                width <= isize::MAX,
                rows <= isize::MAX,
                cols <= isize::MAX,
                origin <= isize::MAX,
                offsets@.len() == index_i * cols + index_j,
                forall|i: int, j: int|
                    0 <= i < index_i && 0 <= j < cols ==> #[trigger] offsets@[i * cols + j] == (
                    width as int) * i + j - origin,
                forall|j: int|
                    0 <= j < index_j ==> #[trigger] offsets@[index_i * cols + j] == (width as int)
                        * (index_i as int) + j - origin,
            decreases cols - index_j,
        {
            proof {
                assert(0 <= (width as int) * (index_i as int)) by (nonlinear_arith)
                    requires
                        width >= 0,
                        index_i >= 0,
                ;
            }
            let off: isize = (width as isize) * (index_i as isize) + (index_j as isize) - (
            origin as isize);
            offsets.push(off);
            proof {
                assert forall|i: int, j: int|
                    0 <= i < index_i && 0 <= j < cols implies #[trigger] (i * cols + j) < index_i
                    * cols by {
                    assert(i * cols + j < index_i * cols) by (nonlinear_arith)
                        requires
                            0 <= i < index_i,
                            0 <= j < cols,
                    ;
                }
            }
            index_j = index_j + 1;
        }
        index_i = index_i + 1;
    }
    proof {
        assert((rows as int) * (cols as int) == (cols as int) * (rows as int)) by (nonlinear_arith);
    }
    offsets
}

} // verus!
