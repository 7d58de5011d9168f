use vstd::prelude::*;

verus! {

/// Width and height of an image, in pixels.
pub type Shape2D = (usize, usize);

/// Width, height and number of interleaved planes (channels) of a buffer.
pub type Shape = (usize, usize, usize);

/// Number of samples a buffer of the given shape holds.
pub open spec fn shape_len(s: Shape) -> int {
    s.0 * s.1 * s.2
}

/// Read access to a shaped pixel buffer.
pub trait TextureRef {
    /// The shape the buffer was built with.
    spec fn ref_shape(&self) -> Shape;

    fn width(&self) -> (r: u32)
        ensures
            r as usize == self.ref_shape().0,
    ;

    fn height(&self) -> (r: u32)
        ensures
            r as usize == self.ref_shape().1,
    ;

    fn planes(&self) -> (r: u32)
        ensures
            r as usize == self.ref_shape().2,
    ;

    fn shape_2d(&self) -> (r: Shape2D)
        ensures
            r.0 == self.ref_shape().0,
            r.1 == self.ref_shape().1,
    ;

    fn shape(&self) -> (r: Shape)
        ensures
            r == self.ref_shape(),
    ;
}

/// A pixel buffer that owns its storage.
#[derive(Debug, Clone)]
pub struct Texture<T> {
    buffer: Vec<T>,
    width: u32,
    height: u32,
    planes: u32,
}

impl<T> View for Texture<T> {
    type V = Seq<T>;

    closed spec fn view(&self) -> Seq<T> {
        self.buffer@
    }
}

impl<T> Texture<T> {
    pub closed spec fn spec_shape(&self) -> Shape {
        (self.width as usize, self.height as usize, self.planes as usize)
    }

    /// The buffer holds exactly one sample per plane of every pixel.
    pub open spec fn wf(&self) -> bool {
        self@.len() == shape_len(self.spec_shape())
    }

    /// Read one sample by its flat index.
    pub fn get(&self, i: usize) -> (r: &T)
        requires
            i < self@.len(),
        ensures
            *r == self@[i as int],
    {
        &self.buffer[i]
    }

    pub fn len(&self) -> (r: usize)
        ensures
            r == self@.len(),
    {
        self.buffer.len()
    }

    pub fn as_texture_slice<'s>(&'s self) -> (r: TextureSlice<'s, T>)
        ensures
            r@ == self@,
            r.ref_shape() == self.ref_shape(),
    {
        TextureSlice {
            buffer: self.buffer.as_slice(),
            width: self.width,
            height: self.height,
            planes: self.planes,
        }
    }

    /// Shared access to the underlying storage.
    pub(crate) fn buffer(&self) -> (b: &Vec<T>)
        ensures
            b@ == self@,
    {
        &self.buffer
    }

    /// Exclusive access to the underlying storage; the shape is not touched.
    pub(crate) fn buffer_mut(&mut self) -> (b: &mut Vec<T>)
        ensures
            b@ == old(self)@,
            final(self)@ == final(b)@,
            final(self).spec_shape() == old(self).spec_shape(),
    {
        &mut self.buffer
    }
}

impl<T> TextureRef for Texture<T> {
    open spec fn ref_shape(&self) -> Shape {
        self.spec_shape()
    }

    fn width(&self) -> u32 {
        self.width
    }

    fn height(&self) -> u32 {
        self.height
    }

    fn planes(&self) -> u32 {
        self.planes
    }

    fn shape_2d(&self) -> Shape2D {
        (self.width as usize, self.height as usize)
    }

    fn shape(&self) -> Shape {
        (self.width as usize, self.height as usize, self.planes as usize)
    }
}

impl<T: Default + Copy> Texture<T> {
    /// A buffer of the given shape filled uniformly with the element type's
    /// default.
    pub fn new(width: u32, height: u32, planes: u32) -> (t: Texture<T>)
        requires
            width * height * planes <= usize::MAX,
        ensures
            t.wf(),
            t.spec_shape() == (width as usize, height as usize, planes as usize),
            forall|i: int, j: int|
                0 <= i < t@.len() && 0 <= j < t@.len() ==> #[trigger] t@[i] == #[trigger] t@[j],
    {
        let n: usize;
        if width == 0 || height == 0 || planes == 0 {
            proof {
                assert(width * height * planes == 0) by (nonlinear_arith)
                    requires
                        width == 0 || height == 0 || planes == 0,
                ;
            }
            n = 0;
        } else {
            proof {
                assert(width * height <= width * height * planes) by (nonlinear_arith)
                    requires
                        width >= 0,
                        height >= 0,
                        planes >= 1,
                ;
            }
            n = (width as usize) * (height as usize) * (planes as usize);
        }
        let fill: T = T::default();
        let mut buffer: Vec<T> = Vec::new();
        let mut i: usize = 0;
        while i < n
            invariant
                i <= n,
                n == width * height * planes,
                buffer@.len() == i,
                forall|k: int| 0 <= k < i ==> #[trigger] buffer@[k] == fill,
            decreases n - i,
        {
            buffer.push(fill);
            i = i + 1;
        }
        Texture { buffer, width, height, planes }
    }

    /// A buffer whose shape is given as one tuple, filled uniformly with
    /// the element type's default.
    pub fn with_shape(shape: Shape) -> (t: Texture<T>)
        requires
            shape.0 <= u32::MAX,
            shape.1 <= u32::MAX,
            shape.2 <= u32::MAX,
            shape_len(shape) <= usize::MAX,
        ensures
            t.wf(),
            t.spec_shape() == shape,
            forall|i: int, j: int|
                0 <= i < t@.len() && 0 <= j < t@.len() ==> #[trigger] t@[i] == #[trigger] t@[j],
    {
        Texture::new(shape.0 as u32, shape.1 as u32, shape.2 as u32)
    }
}

impl<T: Copy> Texture<T> {
    /// A buffer of the given shape holding a copy of `slice`.
    pub fn from_slice(width: u32, height: u32, planes: u32, slice: &[T]) -> (t: Texture<T>)
        requires
            slice@.len() == width * height * planes,
        ensures
            t.wf(),
            t.spec_shape() == (width as usize, height as usize, planes as usize),
            t@ == slice@,
    {
        let n: usize = slice.len();
        let mut buffer: Vec<T> = Vec::new();
        let mut i: usize = 0;
        while i < n
            invariant
                i <= n,
                n == slice@.len(),
                buffer@ == slice@.subrange(0, i as int),
            decreases n - i,
        {
            buffer.push(slice[i]);
            proof {
                assert(buffer@ =~= slice@.subrange(0, i + 1));
            }
            i = i + 1;
        }
        proof {
            assert(buffer@ =~= slice@);
        }
        Texture { buffer, width, height, planes }
    }

    /// Overwrite the whole buffer with the contents of `slice`.
    pub fn copy_from_slice(&mut self, slice: &[T])
        requires
            slice@.len() == old(self)@.len(),
        ensures
            final(self)@ == slice@,
            final(self).spec_shape() == old(self).spec_shape(),
    {
        let n: usize = slice.len();
        let mut i: usize = 0;
        while i < n
            invariant
                i <= n,
                n == slice@.len(),
                self.buffer@.len() == n,
                self.spec_shape() == old(self).spec_shape(),
                forall|j: int| 0 <= j < i ==> self.buffer@[j] == slice@[j],
            decreases n - i,
        {
            self.buffer[i] = slice[i];
            i = i + 1;
        }
        proof {
            assert(self@ =~= slice@);
        }
    }

    /// Split an interleaved buffer into one single-plane buffer per plane.
    pub fn split_by_planes(&self) -> (r: Vec<Texture<T>>)
        requires
            self.wf(),
            self.spec_shape().2 >= 1,
        ensures
            r@.len() == self.spec_shape().2,
            forall|p: int|
                0 <= p < r@.len() ==> (#[trigger] r@[p]).spec_shape() == (
                self.spec_shape().0,
                self.spec_shape().1,
                1usize,
                ),
            forall|p: int| 0 <= p < r@.len() ==> (#[trigger] r@[p]).wf(),
            forall|p: int, i: int|
                0 <= p < r@.len() && 0 <= i < self.spec_shape().0 * self.spec_shape().1
                    ==> #[trigger] r@[p]@[i] == self@[i * self.spec_shape().2 + p],
    {
        let planes: usize = self.planes as usize;
        let total: usize = self.len();
        let count: usize = total / planes;
        proof {
            assert(count == self.spec_shape().0 * self.spec_shape().1 && count * planes == total)
                by (nonlinear_arith)
                requires
                    planes >= 1,
                    count == total / planes,
                    total == self.spec_shape().0 * self.spec_shape().1 * self.spec_shape().2,
                    planes == self.spec_shape().2,
            ;
        }
        let mut out: Vec<Texture<T>> = Vec::new();
        let mut p: usize = 0;
        while p < planes
            invariant
                p <= planes,
                self.wf(),
                total == self@.len(),
                count * planes == total,
                count == self.spec_shape().0 * self.spec_shape().1,
                planes == self.spec_shape().2,
                count == self.spec_shape().0 * self.spec_shape().1,
                out@.len() == p,
                forall|q: int|
                    0 <= q < p ==> (#[trigger] out@[q]).spec_shape() == (
                    self.spec_shape().0,
                    self.spec_shape().1,
                    1usize,
                    ),
                forall|q: int| 0 <= q < p ==> (#[trigger] out@[q]).wf(),
                forall|q: int, i: int|
                    0 <= q < p && 0 <= i < count ==> #[trigger] out@[q]@[i] == self@[i * planes
                        + q],
            decreases planes - p,
        {
            let mut buffer: Vec<T> = Vec::new();
            let mut i: usize = 0;
            while i < count
                invariant
                    i <= count,
                    p < planes,
                    self.wf(),
                    total == self@.len(),
                    count * planes == total,
                    count == self.spec_shape().0 * self.spec_shape().1,
                    planes == self.spec_shape().2,
                    count == self.spec_shape().0 * self.spec_shape().1,
                    buffer@.len() == i,
                    forall|j: int| 0 <= j < i ==> #[trigger] buffer@[j] == self@[j * planes + p],
                decreases count - i,
            {
                proof {
                    assert(i * planes + p < count * planes) by (nonlinear_arith)
                        requires
                            0 <= i < count,
                            0 <= p < planes,
                    ;
                    assert(i * planes + p < total);
                }
                buffer.push(*self.get(i * planes + p));
                i = i + 1;
            }
            let plane_tex = Texture { buffer, width: self.width, height: self.height, planes: 1 };
            proof {
                let sh = plane_tex.spec_shape();
                assert(sh.0 * sh.1 * sh.2 == sh.0 * sh.1) by (nonlinear_arith)
                    requires
                        sh.2 == 1,
                ;
                assert(plane_tex.wf());
            }
            out.push(plane_tex);
            p = p + 1;
        }
        out
    }
}

impl<T: Copy> Texture<T> {
    /// Interleave single-plane buffers of one shape into one multi-plane
    /// buffer: sample `p` of pixel `i` comes from plane `p`.
    pub fn merge_planes(planes: Vec<Texture<T>>) -> (r: Texture<T>)
        requires
            planes@.len() >= 1,
            planes@.len() <= u32::MAX,
            forall|p: int| 0 <= p < planes@.len() ==> (#[trigger] planes@[p]).wf(),
            forall|p: int|
                0 <= p < planes@.len() ==> (#[trigger] planes@[p]).spec_shape() == (
                planes@[0].spec_shape().0,
                planes@[0].spec_shape().1,
                1usize,
                ),
            planes@[0].spec_shape().0 * planes@[0].spec_shape().1 * planes@.len() <= usize::MAX,
        ensures
            r.wf(),
            r.spec_shape() == (
                planes@[0].spec_shape().0,
                planes@[0].spec_shape().1,
                planes@.len() as usize,
            ),
            forall|i: int, p: int|
                0 <= i < planes@[0].spec_shape().0 * planes@[0].spec_shape().1 && 0 <= p
                    < planes@.len() ==> #[trigger] r@[i * planes@.len() + p] == planes@[p]@[i],
    {
        let n = planes.len();
        let first = &planes[0];
        let width = first.width;
        let height = first.height;
        let count: usize = first.buffer.len();
        proof {
            assert(count == first.spec_shape().0 * first.spec_shape().1 * 1);
            assert(first.spec_shape().0 * first.spec_shape().1 * 1 == first.spec_shape().0
                * first.spec_shape().1) by (nonlinear_arith);
            assert(count * n <= usize::MAX);
        }
        let mut buffer: Vec<T> = Vec::new();
        let mut i: usize = 0;
        while i < count
            invariant
                i <= count,
                n == planes@.len(),
                n >= 1,
                count == planes@[0].spec_shape().0 * planes@[0].spec_shape().1,
                count * n <= usize::MAX,
                forall|p: int| 0 <= p < n ==> (#[trigger] planes@[p]).wf(),
                forall|p: int|
                    0 <= p < n ==> (#[trigger] planes@[p]).spec_shape() == (
                    planes@[0].spec_shape().0,
                    planes@[0].spec_shape().1,
                    1usize,
                    ),
                forall|p: int| 0 <= p < n ==> (#[trigger] planes@[p])@.len() == count,
                buffer@.len() == i * n,
                forall|j: int, p: int|
                    0 <= j < i && 0 <= p < n ==> #[trigger] buffer@[j * n + p] == planes@[p]@[j],
            decreases count - i,
        {
            proof {
                assert((i + 1) * n == i * n + n) by (nonlinear_arith);
                assert((i + 1) * n <= count * n) by (nonlinear_arith)
                    requires
                        0 <= i,
                        i + 1 <= count,
                        n >= 0,
                ;
            }
            let mut p: usize = 0;
            while p < n
                invariant
                    p <= n,
                    i < count,
                    n == planes@.len(),
                    count == planes@[0].spec_shape().0 * planes@[0].spec_shape().1,
                    i * n + n <= count * n,
                    forall|q: int| 0 <= q < n ==> (#[trigger] planes@[q])@.len() == count,
                    buffer@.len() == i * n + p,
                    forall|j: int, q: int|
                        0 <= j < i && 0 <= q < n ==> #[trigger] buffer@[j * n + q] == planes@[q]@[j],
                    forall|q: int|
                        0 <= q < p ==> #[trigger] buffer@[i * n + q] == planes@[q]@[i as int],
                decreases n - p,
            {
                buffer.push(*planes[p].get(i));
                proof {
                    assert forall|j: int, q: int|
                        0 <= j < i && 0 <= q < n implies #[trigger] (j * n + q) < i * n by {
                        assert(j * n + q < i * n) by (nonlinear_arith)
                            requires
                                0 <= j < i,
                                0 <= q < n,
                        ;
                    }
                }
                p = p + 1;
            }
            i = i + 1;
        }
        proof {
            assert(count * n == planes@[0].spec_shape().0 * planes@[0].spec_shape().1 * n)
                by (nonlinear_arith)
                requires
                    count == planes@[0].spec_shape().0 * planes@[0].spec_shape().1,
            ;
        }
        Texture { buffer, width, height, planes: n as u32 }
    }
}

/// A pixel buffer borrowing its storage.
#[derive(Debug, Clone, Copy)]
pub struct TextureSlice<'a, T> {
    buffer: &'a [T],
    width: u32,
    height: u32,
    planes: u32,
}

impl<'a, T> View for TextureSlice<'a, T> {
    type V = Seq<T>;

    closed spec fn view(&self) -> Seq<T> {
        self.buffer@
    }
}

impl<'a, T> TextureSlice<'a, T> {
    pub fn new(width: u32, height: u32, planes: u32, buffer: &'a [T]) -> (r: TextureSlice<'a, T>)
        ensures
            r@ == buffer@,
            r.ref_shape() == (width as usize, height as usize, planes as usize),
    {
        TextureSlice { buffer, width, height, planes }
    }

    /// The borrowed buffer holds one sample per plane of every pixel.
    pub open spec fn wf(&self) -> bool {
        self@.len() == shape_len(self.ref_shape())
    }

    /// Read one sample by its flat index.
    pub fn get(&self, i: usize) -> (r: &T)
        requires
            i < self@.len(),
        ensures
            *r == self@[i as int],
    {
        &self.buffer[i]
    }

    /// A copy of the borrowed contents in an owning buffer.
    pub fn to_texture(&self) -> (t: Texture<T>)
        where T: Copy
        requires
            self.wf(),
        ensures
            t.wf(),
            t.spec_shape() == self.ref_shape(),
            t@ == self@,
    {
        Texture::from_slice(self.width, self.height, self.planes, self.buffer)
    }
}

impl<'a, T> TextureRef for TextureSlice<'a, T> {
    closed spec fn ref_shape(&self) -> Shape {
        (self.width as usize, self.height as usize, self.planes as usize)
    }

    fn width(&self) -> u32 {
        self.width
    }

    fn height(&self) -> u32 {
        self.height
    }

    fn planes(&self) -> u32 {
        self.planes
    }

    fn shape_2d(&self) -> Shape2D {
        (self.width as usize, self.height as usize)
    }

    fn shape(&self) -> Shape {
        (self.width as usize, self.height as usize, self.planes as usize)
    }
}

} // verus!
