use ditherpunker::texture::{Texture, TextureRef, TextureSlice};

#[test]
fn test_texture_from_slice_keeps_contents() {
    let data: Vec<u8> = (0..24).collect();
    let t = Texture::from_slice(4, 3, 2, &data);
    assert_eq!(t.shape(), (4, 3, 2));
    assert_eq!(t.len(), 24);
    for i in 0..24 {
        assert_eq!(*t.get(i), data[i]);
    }
}

#[test]
fn test_texture_copy_from_slice_overwrites() {
    let mut t: Texture<u8> = Texture::new(2, 2, 1);
    t.copy_from_slice(&[9, 8, 7, 6]);
    assert_eq!(*t.get(0), 9);
    assert_eq!(*t.get(3), 6);
    assert_eq!(t.shape(), (2, 2, 1));
}

#[test]
fn test_texture_slice_views_borrowed_buffer() {
    let data: Vec<u16> = vec![5, 6, 7, 8];
    let s = TextureSlice::new(2, 2, 1, &data);
    assert_eq!(s.shape_2d(), (2, 2));
    assert_eq!(*s.get(2), 7);
    let owned = s.to_texture();
    assert_eq!(*owned.get(2), 7);
}

#[test]
fn test_split_and_merge_planes_round_trip() {
    // An interleaved 2x2 image with 3 planes.
    let data: Vec<u8> = vec![1, 2, 3, 4, 5, 6, 7, 8, 9, 10, 11, 12];
    let t = Texture::from_slice(2, 2, 3, &data);
    let planes = t.split_by_planes();
    assert_eq!(planes.len(), 3);
    assert_eq!(planes[0].shape(), (2, 2, 1));
    // Plane 0 holds samples 1, 4, 7, 10.
    assert_eq!(*planes[0].get(0), 1);
    assert_eq!(*planes[0].get(3), 10);
    assert_eq!(*planes[1].get(0), 2);
    assert_eq!(*planes[2].get(3), 12);
    let merged = Texture::merge_planes(planes);
    assert_eq!(merged.shape(), (2, 2, 3));
    for i in 0..12 {
        assert_eq!(*merged.get(i), data[i]);
    }
}
