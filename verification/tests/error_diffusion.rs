use ditherpunker::dithering::error_diffusion::calculate_offset_matrix;

#[test]
fn test_calculate_offset_matrix() {
    let error_diffusion_matrix = [0.20, -1.0, 0.15, 0.10, 0.10, 0.20, 0.20, 0.05];
    let origin_index = error_diffusion_matrix
        .iter()
        .position(|x| *x == -1.0)
        .unwrap();

    assert_eq!(origin_index, 1);

    let matrix = calculate_offset_matrix([4, 2], 300, origin_index);
    assert_eq!(matrix, vec![-1, 0, 1, 2, 299, 300, 301, 302]);
}

#[test]
fn test_calculate_offset_matrix_2() {
    let error_diffusion_matrix = [-1.0, 0.0, 0.15, 0.10, 0.10, 0.20, 0.20, 0.05];
    let origin_index = error_diffusion_matrix
        .iter()
        .position(|x| *x == -1.0)
        .unwrap();

    assert_eq!(origin_index, 0);

    let matrix = calculate_offset_matrix([4, 2], 300, origin_index);
    assert_eq!(matrix, vec![0, 1, 2, 3, 300, 301, 302, 303]);
}
