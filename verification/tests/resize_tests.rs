use stylizer::error::StylizerError;
use stylizer::resize::resize_rgba;

#[test]
fn resize_same_dimensions_is_byte_identical() {
    let src: Vec<u8> = (0..(3 * 2 * 4)).map(|i| (i * 7 % 256) as u8).collect();
    assert_eq!(resize_rgba(&src, 3, 2, 3, 2), Ok(src.clone()));
    assert_eq!(resize_rgba(&[9, 8, 7, 6], 1, 1, 1, 1), Ok(vec![9, 8, 7, 6]));
}

#[test]
fn resize_uniform_image_stays_uniform() {
    let src: Vec<u8> = (0..64 * 64).flat_map(|_| [128u8, 128, 128, 255]).collect();
    let up = resize_rgba(&src, 64, 64, 256, 256).unwrap();
    assert_eq!(up.len(), 256 * 256 * 4);
    assert!(up.chunks(4).all(|p| p == [128, 128, 128, 255]));
    let down = resize_rgba(&up, 256, 256, 64, 64).unwrap();
    assert_eq!(down, src);
}

#[test]
fn resize_interpolates_along_a_row() {
    let src = vec![0u8, 10, 20, 255, 100, 110, 120, 255];
    assert_eq!(
        resize_rgba(&src, 2, 1, 4, 1),
        Ok(vec![0, 10, 20, 255, 25, 35, 45, 255, 50, 60, 70, 255, 75, 85, 95, 255])
    );
}

#[test]
fn resize_interpolates_in_both_directions() {
    let src = vec![0u8, 0, 0, 255, 100, 100, 100, 255, 200, 200, 200, 255, 50, 50, 50, 255];
    let expected: Vec<u8> = [0u8, 33, 67, 67, 72, 78, 133, 111, 89]
        .iter()
        .flat_map(|&v| [v, v, v, 255])
        .collect();
    assert_eq!(resize_rgba(&src, 2, 2, 3, 3), Ok(expected));
    assert_eq!(resize_rgba(&src, 2, 2, 1, 1), Ok(vec![0, 0, 0, 255]));
}

#[test]
fn resize_interpolates_alpha_too() {
    let src = vec![0u8, 0, 0, 0, 0, 0, 0, 200];
    assert_eq!(
        resize_rgba(&src, 2, 1, 4, 1),
        Ok(vec![0, 0, 0, 0, 0, 0, 0, 50, 0, 0, 0, 100, 0, 0, 0, 150])
    );
}

#[test]
fn resize_single_texel_clamps_at_edges() {
    assert_eq!(
        resize_rgba(&[1, 2, 3, 4], 1, 1, 2, 2),
        Ok(vec![1, 2, 3, 4, 1, 2, 3, 4, 1, 2, 3, 4, 1, 2, 3, 4])
    );
}

#[test]
fn resize_rejects_degenerate_geometry() {
    let px = [1u8, 2, 3, 4];
    assert_eq!(resize_rgba(&[], 0, 1, 1, 1), Err(StylizerError::InvalidDimensions));
    assert_eq!(resize_rgba(&[], 1, 0, 1, 1), Err(StylizerError::InvalidDimensions));
    assert_eq!(resize_rgba(&px, 1, 1, 0, 1), Err(StylizerError::InvalidDimensions));
    assert_eq!(resize_rgba(&px, 1, 1, 1, 0), Err(StylizerError::InvalidDimensions));
    assert_eq!(resize_rgba(&[], 0, 0, 0, 0), Err(StylizerError::InvalidDimensions));
}

#[test]
fn resize_rejects_wrong_buffer_length() {
    assert_eq!(resize_rgba(&[1, 2, 3], 1, 1, 2, 2), Err(StylizerError::InvalidDimensions));
    assert_eq!(resize_rgba(&[1, 2, 3, 4, 5], 1, 1, 1, 1), Err(StylizerError::InvalidDimensions));
    assert_eq!(resize_rgba(&[0u8; 12], 2, 2, 2, 2), Err(StylizerError::InvalidDimensions));
}
