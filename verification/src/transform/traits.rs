use vstd::prelude::*;

use crate::texture::{Shape, Texture, TextureRef};

verus! {

/// The transform contract: a one-time `prepare` keyed on the buffer shapes,
/// then any number of `apply` calls on buffers of those shapes.
///
/// Each implementation fixes, through its spec functions, which shape pairs
/// it accepts, when it counts as prepared, and — the heart of the contract —
/// the function from input samples to output samples that `apply` realizes.
/// Because that function depends only on the transform's configuration and
/// the input, repeated application is deterministic by contract.
pub trait TextureTransform: Sized {
    type Input;

    type Output;

    /// The transform's configuration is coherent.
    open spec fn wf(&self) -> bool {
        true
    }

    /// Which input/output shape pairs the transform accepts. An
    /// implementation that leaves the default promises nothing of `prepare`.
    open spec fn shapes_ok(&self, in_shape: Shape, out_shape: Shape) -> bool {
        false
    }

    /// Whether the transform has been prepared for this shape pair.
    open spec fn prepared(&self, in_shape: Shape, out_shape: Shape) -> bool {
        false
    }

    /// The output samples that `apply` writes, as a function of the input
    /// samples and the shapes alone.
    open spec fn output_of(&self, input: Seq<Self::Input>, in_shape: Shape, out_shape: Shape) -> Seq<
        Self::Output,
    > {
        Seq::empty()
    }

    /// Preparation step that can inspect the data shapes before
    /// transformation; accepted shape pairs leave the transform prepared.
    fn prepare(&mut self, in_shape: Shape, out_shape: Shape)
        requires
            old(self).wf(),
        ensures
            final(self).wf(),
            old(self).shapes_ok(in_shape, out_shape) ==> final(self).prepared(in_shape, out_shape),
            forall|s: Seq<Self::Input>, i: Shape, o: Shape|
                #[trigger] final(self).output_of(s, i, o) == old(self).output_of(s, i, o),
            forall|i: Shape, o: Shape|
                #[trigger] final(self).shapes_ok(i, o) == old(self).shapes_ok(i, o),
    ;

    /// Apply the transform from the input texture to the output texture.
    fn apply(&mut self, input: &Texture<Self::Input>, output: &mut Texture<Self::Output>)
        requires
            old(self).wf(),
            input.wf(),
            old(output).wf(),
            old(self).prepared(input.spec_shape(), old(output).spec_shape()),
        ensures
            final(self).wf(),
            final(output).wf(),
            final(output).spec_shape() == old(output).spec_shape(),
            final(output)@ == old(self).output_of(
                input@,
                input.spec_shape(),
                old(output).spec_shape(),
            ),
            final(self).prepared(input.spec_shape(), old(output).spec_shape()),
            forall|s: Seq<Self::Input>, i: Shape, o: Shape|
                #[trigger] final(self).output_of(s, i, o) == old(self).output_of(s, i, o),
            forall|i: Shape, o: Shape|
                #[trigger] final(self).prepared(i, o) == old(self).prepared(i, o),
            forall|i: Shape, o: Shape|
                #[trigger] final(self).shapes_ok(i, o) == old(self).shapes_ok(i, o),
    ;
}

/// Repeated `apply` calls on identical input and configuration yield
/// identical output: the contract makes the output a function of the
/// configuration, the input samples and the shapes, so any two runs agree.
pub proof fn lemma_apply_deterministic<T: TextureTransform>(
    t: &T,
    input: Seq<T::Input>,
    in_shape: Shape,
    out_shape: Shape,
    out1: Seq<T::Output>,
    out2: Seq<T::Output>,
)
    requires
        out1 == t.output_of(input, in_shape, out_shape),
        out2 == t.output_of(input, in_shape, out_shape),
    ensures
        out1 == out2,
{
}

} // verus!
