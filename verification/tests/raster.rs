use sixel_playground::image_buffer::{rgba_to_dynamic_image, RgbaImageError};
use sixel_playground::sixel::{encode_rgba_to_sixel, SixelEncodeError};
use sixel_playground::waveform::{rgb_to_rgba, waveform_column_range, waveform_column_ranges};

#[test]
fn red_pixel_encodes_without_error() {
    let rgba = vec![255u8, 0, 0, 255];
    let result = encode_rgba_to_sixel(&rgba, 1, 1);
    assert!(result.is_ok());
    let s = result.unwrap();
    assert!(s.contains('\x1b'), "sixel string should contain ESC");
}

#[test]
fn white_image_encodes() {
    let width = 16u32;
    let height = 16u32;
    let rgba = vec![255u8; (width * height * 4) as usize];
    let result = encode_rgba_to_sixel(&rgba, width, height);
    assert!(result.is_ok());
}

#[test]
fn sixel_output_is_framed_as_device_control_string() {
    let s = encode_rgba_to_sixel(&[0u8, 255, 0, 255, 0, 0, 255, 255], 2, 1).unwrap();
    assert!(s.starts_with("\x1bP"));
    assert!(s.ends_with("\x1b\\"));
}

#[test]
fn sixel_rejects_bad_buffers() {
    assert!(matches!(
        encode_rgba_to_sixel(&[], 0, 1),
        Err(SixelEncodeError::InvalidDimensions { width: 0, height: 1 })
    ));
    assert!(matches!(
        encode_rgba_to_sixel(&[0u8; 3], 1, 1),
        Err(SixelEncodeError::BufferSizeMismatch { expected: 4, actual: 3 })
    ));
    assert!(matches!(
        encode_rgba_to_sixel(&[0u8; 12], 1, 2),
        Err(SixelEncodeError::BufferSizeMismatch { expected: 8, actual: 12 })
    ));
}

#[test]
fn lib_rgba_to_dynamic_image_size_matches() {
    let width = 3;
    let height = 2;
    let rgba = vec![255; (width * height * 4) as usize];
    let image = rgba_to_dynamic_image(rgba, width, height).expect("valid rgba data");
    assert_eq!(image.width(), width);
    assert_eq!(image.height(), height);
}

#[test]
fn lib_rgba_to_dynamic_image_rejects_invalid_length() {
    let result = rgba_to_dynamic_image(vec![0; 3], 1, 1);
    assert!(result.is_err());
    assert_eq!(result.err(), Some(RgbaImageError::BufferTooSmall));
}

#[test]
fn rgba_to_dynamic_image_accepts_longer_buffers() {
    let image = rgba_to_dynamic_image(vec![7; 20], 2, 2).expect("buffer is large enough");
    assert_eq!((image.width(), image.height()), (2, 2));
    assert!(rgba_to_dynamic_image(vec![7; 15], 2, 2).is_err());
}

#[test]
fn rgb_to_rgba_adds_opaque_alpha_and_drops_partial_pixel() {
    assert_eq!(
        rgb_to_rgba(&[1, 2, 3, 4, 5, 6, 7, 8]),
        vec![1, 2, 3, 255, 4, 5, 6, 255]
    );
    assert_eq!(rgb_to_rgba(&[]), Vec::<u8>::new());
    assert_eq!(rgb_to_rgba(&[0, 0, 0]), vec![0, 0, 0, 255]);
}

#[test]
fn waveform_columns_split_samples_evenly() {
    // eight samples over two columns
    assert_eq!(
        waveform_column_ranges(8, 2),
        vec![Some((0, 4)), Some((4, 8))]
    );
}

#[test]
fn short_waveform_columns_reach_right_edge() {
    // two samples over four columns: every column is covered, the last one
    // ends at the last sample
    assert_eq!(
        waveform_column_ranges(2, 4),
        vec![Some((0, 1)), Some((0, 1)), Some((1, 2)), Some((1, 2))]
    );
    assert_eq!(waveform_column_range(3, 2, 4), Some((1, 2)));
}

#[test]
fn waveform_columns_without_samples_are_empty() {
    assert_eq!(waveform_column_ranges(0, 3), vec![None, None, None]);
    assert_eq!(waveform_column_ranges(5, 0), Vec::new());
}

#[test]
fn waveform_columns_cover_uneven_split() {
    // seven samples over three columns: [0,3), [2,5), [4,7)
    assert_eq!(
        waveform_column_ranges(7, 3),
        vec![Some((0, 3)), Some((2, 5)), Some((4, 7))]
    );
}

#[test]
fn rgba_to_dynamic_image_keeps_bytes_and_dimensions() {
    let bytes: Vec<u8> = (0u8..24).collect();
    let image = rgba_to_dynamic_image(bytes.clone(), 3, 2).expect("exact buffer");
    assert_eq!(image.as_bytes(), bytes.as_slice());
    assert_eq!((image.width(), image.height()), (3, 2));
    let empty = rgba_to_dynamic_image(Vec::new(), 5, 0).expect("zero height needs no bytes");
    assert_eq!((empty.width(), empty.height()), (5, 0));
}

#[test]
fn sixel_rejects_dimensions_beyond_encoder_limits() {
    let wide = vec![0u8; 4 * 1_000_001];
    assert!(matches!(
        encode_rgba_to_sixel(&wide, 1_000_001, 1),
        Err(SixelEncodeError::InvalidDimensions { width: 1_000_001, height: 1 })
    ));
    // 999_997 rows round up to 1_000_002 rows of whole sixel bands
    let tall = vec![0u8; 4 * 999_997];
    assert!(matches!(
        encode_rgba_to_sixel(&tall, 1, 999_997),
        Err(SixelEncodeError::InvalidDimensions { width: 1, height: 999_997 })
    ));
}

#[test]
fn sixel_encoding_is_deterministic_and_depends_on_pixels() {
    let red = [255u8, 0, 0, 255];
    let blue = [0u8, 0, 255, 255];
    let a = encode_rgba_to_sixel(&red, 1, 1).unwrap();
    assert_eq!(a, encode_rgba_to_sixel(&red, 1, 1).unwrap());
    assert_ne!(a, encode_rgba_to_sixel(&blue, 1, 1).unwrap());
}

#[test]
fn sixel_header_declares_square_pixels_and_transparent_background() {
    let s = encode_rgba_to_sixel(&[255u8, 0, 0, 255], 1, 1).unwrap();
    assert!(s.starts_with("\x1bP9;1;0q"));
}
