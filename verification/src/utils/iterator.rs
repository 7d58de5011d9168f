use vstd::prelude::*;

verus! {

/// A grid iterator that yields `(x, y, pixel_idx)` tuples in row-major
/// order.
#[derive(Debug, Clone, Copy)]
pub struct GridIterator {
    pub width: usize,
    pub height: usize,
    pub x: usize,
    pub y: usize,
    pub pixel_idx: usize,
}

impl GridIterator {
    /// The cursor always sits at the flat index of `(x, y)`, inside the
    /// grid or just past its last row.
    pub open spec fn wf(&self) -> bool {
        &&& self.width * self.height <= usize::MAX
        &&& self.pixel_idx == self.y * self.width + self.x
        &&& (self.x < self.width || self.x == 0)
        &&& self.y <= self.height
        &&& (self.y < self.height || self.x == 0)
    }

    pub fn new(width: usize, height: usize) -> (it: GridIterator)
        requires
            width * height <= usize::MAX,
        ensures
            it.wf(),
            it.width == width,
            it.height == height,
            it.x == 0,
            it.y == 0,
            it.pixel_idx == 0,
    {
        GridIterator { width, height, x: 0, y: 0, pixel_idx: 0 }
    }

    /// The next grid position, or nothing once every row is done. An empty
    /// grid yields nothing.
    pub fn next(&mut self) -> (r: Option<(usize, usize, usize)>)
        requires
            old(self).wf(),
        ensures
            final (self).wf(),
            final (self).width == old(self).width,
            final (self).height == old(self).height,
            (r is Some) == (old(self).width > 0 && old(self).y < old(self).height),
            r is Some ==> r == Some::<(usize, usize, usize)>(
                (old(self).x, old(self).y, old(self).pixel_idx),
            ) && final (self).pixel_idx == old(self).pixel_idx + 1,
            r is None ==> *final (self) == *old(self),
    {
        if self.width == 0 || self.y >= self.height {
            return None;
        }
        let result = (self.x, self.y, self.pixel_idx);
        proof {
            assert(self.y * self.width + self.x + 1 <= self.width * self.height)
                by (nonlinear_arith)
                requires
                    0 <= self.y < self.height,
                    0 <= self.x < self.width,
            ;
        }
        self.pixel_idx = self.pixel_idx + 1;
        self.x = self.x + 1;
        if self.x >= self.width {
            self.x = 0;
            self.y = self.y + 1;
            proof {
                assert(self.y * self.width == (self.y - 1) * self.width + self.width)
                    by (nonlinear_arith);
            }
        }
        Some(result)
    }

    /// How many positions are left to visit.
    pub fn len(&self) -> (r: usize)
        requires
            self.wf(),
        ensures
            r == self.width * self.height - self.pixel_idx,
    {
        proof {
            assert(self.y * self.width + self.x <= self.width * self.height) by (nonlinear_arith)
                requires
                    0 <= self.y <= self.height,
                    self.x == 0 || self.x < self.width,
                    self.y < self.height || self.x == 0,
                    self.x >= 0,
            ;
        }
        self.width * self.height - self.pixel_idx
    }
}

/// A parallel grid iterator over the same positions; the distribution of
/// positions to workers is done by the caller's thread pool.
#[derive(Debug, Clone, Copy)]
pub struct ParGridIterator {
    pub width: usize,
    pub height: usize,
}

impl ParGridIterator {
    pub fn new(width: usize, height: usize) -> (it: ParGridIterator)
        ensures
            it.width == width,
            it.height == height,
    {
        ParGridIterator { width, height }
    }
}

} // verus!
