use ditherpunker::texture::{Shape, Texture, TextureRef};
use ditherpunker::transform::pipe::{PipeableTransform, Pipeline};
use ditherpunker::transform::traits::TextureTransform;

#[derive(Default)]
struct IncTransform {
    in_shape: Option<Shape>,
    out_shape: Option<Shape>,
}

impl TextureTransform for IncTransform {
    type Input = u8;
    type Output = u8;

    fn apply(&mut self, input: &Texture<u8>, output: &mut Texture<u8>) {
        let mut bumped: Vec<u8> = Vec::new();
        for i in 0..input.len() {
            bumped.push(*input.get(i) + 1);
        }
        output.copy_from_slice(&bumped);
    }

    fn prepare(&mut self, in_shape: Shape, out_shape: Shape) {
        self.in_shape = Some(in_shape);
        self.out_shape = Some(out_shape);
    }
}

#[test]
fn test_pipeline_cascades_apply() {
    let shape: Shape = (4, 4, 1);
    let input = Texture::<u8>::with_shape(shape);
    let mut output = Texture::<u8>::with_shape(shape);

    let a = IncTransform::default();
    let b = IncTransform::default();

    let mut pipeline = a.pipe_with_shape(b, shape);
    pipeline.apply(&input, &mut output);

    for i in 0..output.len() {
        assert!(*output.get(i) == 2);
    }
}

#[test]
fn test_pipeline_cascades_prepare() {
    let mut pipeline = IncTransform::default().pipe_with_shape(IncTransform::default(), (4, 4, 1));

    pipeline.prepare((2, 2, 1), (8, 8, 1));

    assert_eq!(pipeline.t1.in_shape, Some((2, 2, 1)));
    assert_eq!(pipeline.t1.out_shape, Some((4, 4, 1)));
    assert_eq!(pipeline.t2.in_shape, Some((4, 4, 1)));
    assert_eq!(pipeline.t2.out_shape, Some((8, 8, 1)));
}

#[test]
fn test_pipeline_new_allocates_intermediate() {
    let pipeline = Pipeline::new(IncTransform::default(), IncTransform::default(), 3, 2, 1);
    assert_eq!(pipeline.b.shape(), (3, 2, 1));
}
