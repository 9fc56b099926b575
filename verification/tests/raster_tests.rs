use typst_world::raster::RasterFailure;
use typst_world::raster::apply_fill;
use typst_world::raster::output_dims;
use typst_world::raster::resizer_new;
use typst_world::raster::to_image_buffer;

#[test]
fn fill_paints_transparent_pixels_opaque_red() {
    let mut pix = vec![0u8; 16];
    apply_fill(&mut pix, &b"#FF0000FF".to_vec());
    for p in 0..4 {
        assert_eq!(&pix[4 * p..4 * p + 4], &[255, 0, 0, 255]);
    }
}

#[test]
fn fill_with_zero_alpha_changes_nothing() {
    let mut pix = vec![0u8; 16];
    apply_fill(&mut pix, &b"#00000000".to_vec());
    assert_eq!(pix, vec![0u8; 16]);
}

#[test]
fn fill_leaves_opaque_pixels_alone() {
    let mut pix = vec![10, 20, 30, 255, 0, 0, 0, 0];
    apply_fill(&mut pix, &b"#FF0000FF".to_vec());
    assert_eq!(pix, vec![10, 20, 30, 255, 255, 0, 0, 255]);
}

#[test]
fn fill_is_premultiplied() {
    let mut pix = vec![0u8; 4];
    apply_fill(&mut pix, &b"#FF000080".to_vec());
    assert_eq!(pix, vec![128, 0, 0, 128]);
}

#[test]
fn invalid_fill_is_tolerated_silently() {
    let mut pix = vec![0u8; 8];
    apply_fill(&mut pix, &b"#GGGGGGGG".to_vec());
    assert_eq!(pix, vec![0u8; 8]);
    apply_fill(&mut pix, &b"".to_vec());
    assert_eq!(pix, vec![0u8; 8]);
    apply_fill(&mut pix, &b"#FF00".to_vec());
    assert_eq!(pix, vec![0u8; 8]);
    apply_fill(&mut pix, &b"#FF000".to_vec());
    assert_eq!(pix, vec![0u8; 8]);
}

#[test]
fn dims_preserve_aspect_for_width_sizing() {
    assert_eq!(output_dims(200, 100, 50, true), Ok((50, 25)));
}

#[test]
fn dims_preserve_aspect_for_height_sizing() {
    assert_eq!(output_dims(200, 100, 50, false), Ok((100, 50)));
}

#[test]
fn dims_truncate() {
    // 30 * 100 / 200 = 15; 33 * 100 / 200 = 16.5, truncated.
    assert_eq!(output_dims(200, 100, 33, true), Ok((33, 16)));
}

#[test]
fn zero_source_dimensions_are_refused() {
    assert_eq!(output_dims(0, 100, 50, true), Err(RasterFailure::BadDimensions));
    assert_eq!(output_dims(200, 0, 50, true), Err(RasterFailure::BadDimensions));
}

#[test]
fn pipeline_fills_and_keeps_dimensions() {
    let mut resizer = resizer_new();
    let pix = vec![0u8; 16];
    let img = to_image_buffer(&mut resizer, pix, 2, 2, &b"#FF0000FF".to_vec(), 2, true)
        .expect("the pipeline should succeed");
    assert_eq!(img.width, 2);
    assert_eq!(img.height, 2);
    assert_eq!(img.data.len(), 16);
    for p in 0..4 {
        assert_eq!(&img.data[4 * p..4 * p + 4], &[255, 0, 0, 255]);
    }
}

#[test]
fn pipeline_resizes_to_aspect_dimensions() {
    let mut resizer = resizer_new();
    let pix = vec![255u8; 200 * 100 * 4];
    let img = to_image_buffer(&mut resizer, pix, 200, 100, &b"".to_vec(), 50, true)
        .expect("the pipeline should succeed");
    assert_eq!(img.width, 50);
    assert_eq!(img.height, 25);
    assert_eq!(img.data.len(), 50 * 25 * 4);
}

#[test]
fn pipeline_multiplies_alpha_before_resampling() {
    // A transparent pixel's color channels are zeroed by premultiplication;
    // a pipeline that skipped it would hand the color back unchanged.
    let mut resizer = resizer_new();
    let pix = vec![200, 100, 50, 0];
    let img = to_image_buffer(&mut resizer, pix, 1, 1, &b"".to_vec(), 1, true)
        .expect("the pipeline should succeed");
    assert_eq!(img.data, vec![0, 0, 0, 0]);
}

#[test]
fn pipeline_divides_alpha_back_out() {
    // Premultiplying (255,0,0,128) gives (128,0,0,128); dividing restores it.
    let mut resizer = resizer_new();
    let pix = vec![255, 0, 0, 128];
    let img = to_image_buffer(&mut resizer, pix, 1, 1, &b"".to_vec(), 1, true)
        .expect("the pipeline should succeed");
    assert_eq!(img.data, vec![255, 0, 0, 128]);
}

#[test]
fn mismatched_buffer_is_refused() {
    let mut resizer = resizer_new();
    let r = to_image_buffer(&mut resizer, vec![0u8; 15], 2, 2, &b"".to_vec(), 2, true);
    assert!(matches!(r, Err(RasterFailure::BadDimensions)));
}
