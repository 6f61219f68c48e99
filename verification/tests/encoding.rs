use ray_tracer::assemble::concat_bands;
use ray_tracer::ppm::{encode_image, format_decimal, push_pixel_line};
use ray_tracer::progress::progress_bar;

#[test]
fn decimal_digits_of_small_and_large_numbers() {
    assert_eq!(format_decimal(0), b"0".to_vec());
    assert_eq!(format_decimal(7), b"7".to_vec());
    assert_eq!(format_decimal(255), b"255".to_vec());
    assert_eq!(format_decimal(800), b"800".to_vec());
    assert_eq!(format_decimal(u32::MAX), b"4294967295".to_vec());
}

#[test]
fn black_pixel_line() {
    let mut line: Vec<u8> = Vec::new();
    push_pixel_line(&mut line, 0, 0, 0);
    assert_eq!(line, b"0 0 0\n".to_vec());
}

#[test]
fn mixed_pixel_line() {
    let mut line: Vec<u8> = Vec::new();
    push_pixel_line(&mut line, 255, 128, 7);
    assert_eq!(line, b"255 128 7\n".to_vec());
}

#[test]
fn encoded_image_has_header_and_one_line_per_pixel() {
    let pixels = vec![(0u8, 0u8, 0u8), (128u8, 179u8, 255u8)];
    let out = encode_image(2, 1, &pixels);
    let text = String::from_utf8(out).unwrap();
    let mut expected = String::new();
    expected.push('P');
    expected.push('3');
    expected.push('\n');
    expected.push_str("2 1\n255\n0 0 0\n128 179 255\n");
    assert_eq!(text, expected);
}

#[test]
fn all_black_image_is_all_zero_lines() {
    // A depth budget of zero makes every pixel black; its encoding is all
    // `0 0 0` lines after the header.
    let pixels = vec![(0u8, 0u8, 0u8); 6];
    let out = encode_image(3, 2, &pixels);
    let text = String::from_utf8(out).unwrap();
    let lines: Vec<&str> = text.lines().collect();
    assert_eq!(lines.len(), 3 + 6);
    for line in &lines[3..] {
        assert_eq!(*line, "0 0 0");
    }
}

#[test]
fn progress_bar_is_empty_then_half_then_full() {
    let empty: String = progress_bar(0, 600, 30).into_iter().collect();
    assert_eq!(empty, " ".repeat(30));
    let half: String = progress_bar(300, 600, 30).into_iter().collect();
    assert_eq!(half, format!("{}{}", "#".repeat(15), " ".repeat(15)));
    let full: String = progress_bar(600, 600, 30).into_iter().collect();
    assert_eq!(full, "#".repeat(30));
}

#[test]
fn progress_bar_rounds_down() {
    let bar: String = progress_bar(1, 7, 30).into_iter().collect();
    // 30 * 1 / 7 rounds down to 4 filled cells.
    assert_eq!(bar, format!("{}{}", "#".repeat(4), " ".repeat(26)));
}

#[test]
fn bands_concatenate_in_order() {
    let bands: Vec<Vec<u32>> = vec![vec![1, 2], vec![3], vec![], vec![4, 5]];
    assert_eq!(concat_bands(&bands), vec![1, 2, 3, 4, 5]);
}

#[test]
fn band_outputs_reassemble_row_major() {
    // Four rows of three pixels, rendered as two bands of two rows each.
    let row_major: Vec<u32> = (0..12).collect();
    let bands: Vec<Vec<u32>> = vec![row_major[0..6].to_vec(), row_major[6..12].to_vec()];
    assert_eq!(concat_bands(&bands), row_major);
}
