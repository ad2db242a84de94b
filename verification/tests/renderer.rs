use rust_raytracing::renderer::{Renderer, RendererError};

#[test]
fn renderer_rejects_zero_width() {
    let r = Renderer::new(0, 10, 4, 8);
    assert!(matches!(r, Err(RendererError::ZeroWidth)));
}

#[test]
fn renderer_rejects_zero_height() {
    let r = Renderer::new(10, 0, 4, 8);
    assert!(matches!(r, Err(RendererError::ZeroHeight)));
}

#[test]
fn renderer_rejects_zero_samples() {
    let r = Renderer::new(10, 10, 0, 8);
    assert!(matches!(r, Err(RendererError::ZeroSamples)));
}

#[test]
fn renderer_rejects_oversized_buffer() {
    let r = Renderer::new(2_000_000_000, 1, 1, 1);
    assert!(matches!(r, Err(RendererError::BufferTooLarge)));
}

#[test]
fn renderer_allocates_zeroed_rgb24_buffer() {
    let r = Renderer::new(4, 3, 2, 8).unwrap();
    assert_eq!(r.screen_width, 4);
    assert_eq!(r.screen_height, 3);
    assert_eq!(r.samples_per_pixel, 2);
    assert_eq!(r.max_depth, 8);
    assert_eq!(r.pitch, 12);
    assert_eq!(r.buffer, vec![0u8; 36]);
}

#[test]
fn write_pixel_places_bytes_with_row_flip() {
    let mut r = Renderer::new(2, 2, 1, 1).unwrap();
    // Rows are stored bottom first: y = 1 is the first stored row.
    r.write_pixel(0, 1, 10, 20, 30);
    r.write_pixel(1, 0, 40, 50, 60);
    let expected: Vec<u8> = vec![
        10, 20, 30, // (0, 1)
        0, 0, 0, // (1, 1) untouched
        0, 0, 0, // (0, 0) untouched
        40, 50, 60, // (1, 0)
    ];
    assert_eq!(r.buffer, expected);
}

#[test]
fn write_pixel_overwrites_only_its_own_bytes() {
    let mut r = Renderer::new(3, 1, 1, 1).unwrap();
    r.write_pixel(0, 0, 1, 2, 3);
    r.write_pixel(2, 0, 7, 8, 9);
    r.write_pixel(0, 0, 11, 12, 13);
    assert_eq!(r.buffer, vec![11, 12, 13, 0, 0, 0, 7, 8, 9]);
}

#[test]
fn tile_rows_partition_the_image() {
    let r = Renderer::new(8, 160, 1, 1).unwrap();
    assert_eq!(r.tile_rows(0, 16), (150, 160));
    assert_eq!(r.tile_rows(1, 16), (140, 150));
    assert_eq!(r.tile_rows(15, 16), (0, 10));
    // Successive tiles meet without overlap and cover every row.
    let mut covered = vec![false; 160];
    for worker in 0..16 {
        let (bottom, top) = r.tile_rows(worker, 16);
        for row in bottom..top {
            assert!(!covered[row as usize]);
            covered[row as usize] = true;
        }
    }
    assert!(covered.iter().all(|c| *c));
}

#[test]
fn tile_rows_single_worker_takes_all() {
    let r = Renderer::new(8, 7, 1, 1).unwrap();
    assert_eq!(r.tile_rows(0, 1), (0, 7));
}
