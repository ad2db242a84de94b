use rust_raytracing::texture::{ImageTexture, ImageTextureError};

#[test]
fn image_texture_rejects_zero_dimension() {
    let r = ImageTexture::new(vec![], 0, 4);
    assert!(matches!(r, Err(ImageTextureError::ZeroDimension)));
    let r = ImageTexture::new(vec![1, 2, 3], 1, 0);
    assert!(matches!(r, Err(ImageTextureError::ZeroDimension)));
}

#[test]
fn image_texture_rejects_wrong_buffer_size() {
    let r = ImageTexture::new(vec![0; 11], 2, 2);
    assert!(matches!(r, Err(ImageTextureError::SizeMismatch)));
    let r = ImageTexture::new(vec![0; 13], 2, 2);
    assert!(matches!(r, Err(ImageTextureError::SizeMismatch)));
}

#[test]
fn image_texture_texel_lookup() {
    // A 2x2 image: four pixels with distinct channel values.
    let data: Vec<u8> = vec![
        1, 2, 3, // (0, 0)
        4, 5, 6, // (1, 0)
        7, 8, 9, // (0, 1)
        10, 11, 12, // (1, 1)
    ];
    let t = ImageTexture::new(data, 2, 2).unwrap();
    assert_eq!(t.texel(0, 0), (1, 2, 3));
    assert_eq!(t.texel(1, 0), (4, 5, 6));
    assert_eq!(t.texel(0, 1), (7, 8, 9));
    assert_eq!(t.texel(1, 1), (10, 11, 12));
}

#[test]
fn image_texture_texel_clamps_to_border() {
    let data: Vec<u8> = vec![
        1, 2, 3, //
        4, 5, 6, //
        7, 8, 9, //
        10, 11, 12,
    ];
    let t = ImageTexture::new(data, 2, 2).unwrap();
    assert_eq!(t.texel(9, 0), t.texel(1, 0));
    assert_eq!(t.texel(0, 77), t.texel(0, 1));
    assert_eq!(t.texel(u32::MAX, u32::MAX), (10, 11, 12));
}
