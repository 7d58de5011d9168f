use vstd::prelude::*;

use crate::texture::{shape_len, Shape, Texture, TextureRef};
use crate::transform::traits::TextureTransform;

verus! {

/// Extension trait that enables pipeline chaining: any transform can be
/// chained with a next stage whose input type is this one's output type.
pub trait PipeableTransform: TextureTransform {
    /// Chain this transform with another through a pre-allocated
    /// intermediate buffer.
    fn pipe_with_buffer<T>(self, next: T, intermediate: Texture<Self::Output>) -> (p: Pipeline<
        Self,
        T,
    >) where T: TextureTransform<Input = Self::Output>
        ensures
            p.t1 == self,
            p.t2 == next,
            p.b == intermediate,
    {
        Pipeline::with_buffer(self, next, intermediate)
    }

    /// Chain this transform with another; the intermediate buffer is
    /// allocated with the given shape.
    fn pipe_with_shape<T>(self, next: T, shape: Shape) -> (p: Pipeline<Self, T>) where
        T: TextureTransform<Input = Self::Output>,
        Self::Output: Default + Copy,

        requires
            shape.0 <= u32::MAX,
            shape.1 <= u32::MAX,
            shape.2 <= u32::MAX,
            shape_len(shape) <= usize::MAX,
        ensures
            p.t1 == self,
            p.t2 == next,
            p.b.wf(),
            p.b.spec_shape() == shape,
    {
        Pipeline::with_buffer(self, next, Texture::with_shape(shape))
    }

    /// Chain this transform with another; the intermediate buffer is
    /// allocated from the given dimensions.
    fn pipe<T>(self, next: T, width: u32, height: u32, planes: u32) -> (p: Pipeline<Self, T>) where
        T: TextureTransform<Input = Self::Output>,
        Self::Output: Default + Copy,

        requires
            width * height * planes <= usize::MAX,
        ensures
            p.t1 == self,
            p.t2 == next,
            p.b.wf(),
            p.b.spec_shape() == (width as usize, height as usize, planes as usize),
    {
        Pipeline::new(self, next, width, height, planes)
    }
}

impl<T: TextureTransform> PipeableTransform for T {

}

/// A pipeline that chains two transforms A -> B -> C.
///
/// The intermediate buffer B is owned by this struct and reused across
/// invocations, so chaining allocates nothing per call; the pipeline exposes
/// only A -> C.
pub struct Pipeline<T1, T2> where
    T1: TextureTransform,
    T2: TextureTransform<Input = T1::Output>,
 {
    pub t1: T1,
    pub t2: T2,
    pub b: Texture<T1::Output>,
}

impl<T1, T2> Pipeline<T1, T2> where
    T1: TextureTransform,
    T2: TextureTransform<Input = T1::Output>,
 {
    /// Create a new transform pipeline with a pre-allocated intermediate
    /// buffer.
    pub fn with_buffer(t1: T1, t2: T2, intermediate: Texture<T1::Output>) -> (p: Pipeline<T1, T2>)
        ensures
            p.t1 == t1,
            p.t2 == t2,
            p.b == intermediate,
    {
        Pipeline { t1, t2, b: intermediate }
    }
}

impl<T1, T2> Pipeline<T1, T2> where
    T1: TextureTransform,
    T2: TextureTransform<Input = T1::Output>,
    T1::Output: Default + Copy,
 {
    /// Create a new transform pipeline, allocating the intermediate buffer
    /// with the given shape.
    pub fn new(t1: T1, t2: T2, width: u32, height: u32, planes: u32) -> (p: Pipeline<T1, T2>)
        requires
            width * height * planes <= usize::MAX,
        ensures
            p.t1 == t1,
            p.t2 == t2,
            p.b.wf(),
            p.b.spec_shape() == (width as usize, height as usize, planes as usize),
    {
        Pipeline { t1, t2, b: Texture::new(width, height, planes) }
    }
}

impl<T1, T2> TextureTransform for Pipeline<T1, T2> where
    T1: TextureTransform,
    T2: TextureTransform<Input = T1::Output>,
 {
    type Input = T1::Input;

    type Output = T2::Output;

    open spec fn wf(&self) -> bool {
        &&& self.t1.wf()
        &&& self.t2.wf()
        &&& self.b.wf()
    }

    open spec fn shapes_ok(&self, in_shape: Shape, out_shape: Shape) -> bool {
        &&& self.t1.shapes_ok(in_shape, self.b.spec_shape())
        &&& self.t2.shapes_ok(self.b.spec_shape(), out_shape)
    }

    open spec fn prepared(&self, in_shape: Shape, out_shape: Shape) -> bool {
        &&& self.t1.prepared(in_shape, self.b.spec_shape())
        &&& self.t2.prepared(self.b.spec_shape(), out_shape)
    }

    open spec fn output_of(&self, input: Seq<T1::Input>, in_shape: Shape, out_shape: Shape) -> Seq<
        T2::Output,
    > {
        self.t2.output_of(
            self.t1.output_of(input, in_shape, self.b.spec_shape()),
            self.b.spec_shape(),
            out_shape,
        )
    }

    /// Prepare both stages, keyed on the intermediate buffer's shape.
    fn prepare(&mut self, in_shape: Shape, out_shape: Shape) {
        let b_shape = self.b.shape();
        self.t1.prepare(in_shape, b_shape);
        self.t2.prepare(b_shape, out_shape);
    }

    /// Run the first stage into the owned intermediate buffer, then the
    /// second stage from it into the output.
    fn apply(&mut self, input: &Texture<T1::Input>, output: &mut Texture<T2::Output>) {
        self.t1.apply(input, &mut self.b);
        self.t2.apply(&self.b, output);
    }
}

} // verus!
