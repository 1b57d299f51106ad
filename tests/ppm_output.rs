use path_tracer::ppm::{ppm_header, ppm_pixel, ppm_row, push_decimal, push_signed};

#[test]
fn header_matches_scanline_format() {
    assert_eq!(ppm_header(600, 600), b"P3\n600 600\n255\n".to_vec());
    assert_eq!(ppm_header(400, 225), b"P3\n400 225\n255\n".to_vec());
    assert_eq!(ppm_header(1, 1), b"P3\n1 1\n255\n".to_vec());
}

#[test]
fn header_prints_signed_sizes() {
    assert_eq!(ppm_header(-5, 0), b"P3\n-5 0\n255\n".to_vec());
}

#[test]
fn pixel_line_is_space_separated() {
    assert_eq!(ppm_pixel(255, 0, 255), b"255 0 255\n".to_vec());
    assert_eq!(ppm_pixel(0, 0, 0), b"0 0 0\n".to_vec());
    assert_eq!(ppm_pixel(10, 109, 7), b"10 109 7\n".to_vec());
}

#[test]
fn row_is_pixel_lines_in_order() {
    let row = vec![(1, 2, 3), (40, 50, 60), (255, 255, 255)];
    assert_eq!(ppm_row(&row), b"1 2 3\n40 50 60\n255 255 255\n".to_vec());
    assert_eq!(ppm_row(&Vec::new()), Vec::<u8>::new());
}

#[test]
fn decimal_text_matches_std() {
    for n in [0u64, 7, 10, 99, 100, 12345, u64::MAX] {
        let mut out = b"x".to_vec();
        push_decimal(&mut out, n);
        assert_eq!(out, format!("x{}", n).into_bytes());
    }
    for v in [i64::MIN, -1, 0, 1, i64::MAX, -1000] {
        let mut out = Vec::new();
        push_signed(&mut out, v);
        assert_eq!(out, v.to_string().into_bytes());
    }
}

#[test]
fn repeated_encoding_is_byte_identical() {
    let row: Vec<(i64, i64, i64)> = (0..50).map(|i| (i * 5, 255 - i, i % 7)).collect();
    let mut first = ppm_header(50, 1);
    first.extend(ppm_row(&row));
    let mut second = ppm_header(50, 1);
    second.extend(ppm_row(&row));
    assert_eq!(first, second);
}
