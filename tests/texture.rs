use texpack::{decode, encode, length, CodecError, ImageData};

fn solid(width: usize, height: usize, px: [u8; 4]) -> Vec<u8> {
    let mut v = Vec::new();
    for _ in 0..width * height {
        v.extend_from_slice(&px);
    }
    v
}

fn max_delta(a: &[u8], b: &[u8]) -> u8 {
    assert_eq!(a.len(), b.len());
    a.iter().zip(b.iter()).map(|(x, y)| x.abs_diff(*y)).max().unwrap_or(0)
}

#[test]
fn length_exact_and_padded() {
    assert_eq!(length(0, 16, 32), Ok(256));
    assert_eq!(length(0, 15, 30), Ok(256));
    assert_eq!(length(1, 16, 32), Ok(512));
    assert_eq!(length(1, 15, 30), Ok(512));
    assert_eq!(length(2, 16, 32), Ok(512));
    assert_eq!(length(2, 15, 30), Ok(512));
    assert_eq!(length(0, 5, 5), Ok(32));
    assert_eq!(length(2, 1, 1), Ok(16));
}

#[test]
fn length_of_empty_image_is_zero() {
    for f in 0..3u8 {
        assert_eq!(length(f, 0, 0), Ok(0));
        assert_eq!(length(f, 0, 9), Ok(0));
        assert_eq!(length(f, 9, 0), Ok(0));
    }
}

#[test]
fn unknown_format_is_refused() {
    assert_eq!(length(3, 4, 4), Err(CodecError::InvalidFormat));
    assert_eq!(encode(255, 4, 4, solid(4, 4, [0; 4])), Err(CodecError::InvalidFormat));
    assert_eq!(decode(7, 4, 4, vec![0; 8]), Err(CodecError::InvalidFormat));
}

#[test]
fn overflowing_dimensions_are_refused() {
    assert_eq!(length(1, usize::MAX, usize::MAX), Err(CodecError::SizeOverflow));
    assert_eq!(encode(0, usize::MAX, 2, Vec::new()), Err(CodecError::SizeOverflow));
    assert_eq!(decode(0, 1 << 40, 1 << 40, Vec::new()), Err(CodecError::SizeOverflow));
}

#[test]
fn wrong_buffer_lengths_are_refused() {
    assert_eq!(encode(0, 4, 4, vec![0; 63]), Err(CodecError::PixelLengthMismatch));
    assert_eq!(decode(1, 4, 4, vec![0; 8]), Err(CodecError::DataLengthMismatch));
}

#[test]
fn encoded_size_matches_length() {
    for f in 0..3u8 {
        for &(w, h) in &[(0usize, 0usize), (1, 1), (4, 4), (5, 5), (8, 3), (13, 7)] {
            let out = encode(f, w, h, solid(w, h, [10, 200, 30, 255])).unwrap();
            assert_eq!(Ok(out.len()), length(f, w, h));
        }
    }
}

#[test]
fn solid_red_block_bc1() {
    let red = [255, 0, 0, 255];
    let packed = encode(0, 4, 4, solid(4, 4, red)).unwrap();
    assert_eq!(packed.len(), 8);
    let pixels = decode(0, 4, 4, packed).unwrap();
    assert_eq!(pixels.len(), 64);
    assert!(max_delta(&pixels, &solid(4, 4, red)) <= 1);
}

#[test]
fn padded_decode_has_exact_size() {
    let src = solid(5, 5, [40, 80, 120, 255]);
    for f in 0..3u8 {
        let packed = encode(f, 5, 5, src.clone()).unwrap();
        let out = decode(f, 5, 5, packed).unwrap();
        assert_eq!(out.len(), 5 * 5 * 4);
        for i in 0..25usize {
            assert!(max_delta(&out[4 * i..4 * i + 3], &src[4 * i..4 * i + 3]) <= 8);
            assert!(out[4 * i + 3].abs_diff(src[4 * i + 3]) <= 17);
        }
    }
}

#[test]
fn smooth_gradient_round_trip_is_close() {
    let (w, h) = (8usize, 8usize);
    let mut src = Vec::new();
    for y in 0..h {
        for x in 0..w {
            src.extend_from_slice(&[(x * 8) as u8 + 64, 100, (y * 8) as u8 + 32, 255]);
        }
    }
    for f in 0..3u8 {
        let packed = encode(f, w, h, src.clone()).unwrap();
        let out = decode(f, w, h, packed).unwrap();
        assert!(max_delta(&out, &src) <= 16);
    }
}

#[test]
fn bc2_alpha_is_quantized_to_sixteen_levels() {
    let mut src = Vec::new();
    for i in 0..16usize {
        src.extend_from_slice(&[90, 90, 90, (i * 16 + 3) as u8]);
    }
    let out = decode(1, 4, 4, encode(1, 4, 4, src.clone()).unwrap()).unwrap();
    for i in 0..16usize {
        let a = src[4 * i + 3] as i32;
        let expected = ((a as f64 / 17.0).round() as i32) * 17;
        let got = out[4 * i + 3] as i32;
        assert!((got - expected).abs() <= 17);
    }
}

#[test]
fn bc3_alpha_error_is_bounded() {
    let mut src = Vec::new();
    for i in 0..16usize {
        src.extend_from_slice(&[90, 90, 90, (i * 12 + 20) as u8]);
    }
    let out = decode(2, 4, 4, encode(2, 4, 4, src.clone()).unwrap()).unwrap();
    for i in 0..16usize {
        assert!(src[4 * i + 3].abs_diff(out[4 * i + 3]) <= 17);
    }
}

#[test]
fn bc1_keeps_transparent_pixels_transparent() {
    let mut src = solid(4, 4, [0, 0, 255, 255]);
    for i in 0..8usize {
        src[4 * i + 3] = 0;
    }
    let out = decode(0, 4, 4, encode(0, 4, 4, src.clone()).unwrap()).unwrap();
    for i in 0..16usize {
        assert_eq!(out[4 * i + 3], if i < 8 { 0 } else { 255 });
    }
}

#[test]
fn image_data_checks_its_length() {
    let img = ImageData::new(3, 2, vec![0; 24]).unwrap();
    assert_eq!((img.width, img.height, img.data.len()), (3, 2, 24));
    assert!(matches!(ImageData::new(3, 2, vec![0; 23]), Err(CodecError::PixelLengthMismatch)));
    assert!(matches!(ImageData::new(usize::MAX, 2, Vec::new()), Err(CodecError::SizeOverflow)));
}

#[test]
fn empty_image_with_huge_side_is_empty() {
    assert_eq!(length(0, usize::MAX, 0), Ok(0));
    assert_eq!(encode(0, usize::MAX, 0, Vec::new()), Ok(Vec::new()));
    assert_eq!(decode(2, 0, usize::MAX, Vec::new()), Ok(Vec::new()));
    assert_eq!(encode(1, 0, 0, Vec::new()), Ok(Vec::new()));
}
