use ray_tracing::ppm::{encode_image, push_decimal, write_header, write_pixel, Rgb};

fn text(bytes: &[u8]) -> String {
    String::from_utf8(bytes.to_vec()).unwrap()
}

fn decimal_of(n: u32) -> String {
    let mut out: Vec<u8> = Vec::new();
    push_decimal(&mut out, n);
    text(&out)
}

#[test]
fn decimal_digits_have_no_leading_zeros() {
    assert_eq!(decimal_of(0), "0");
    assert_eq!(decimal_of(7), "7");
    assert_eq!(decimal_of(10), "10");
    assert_eq!(decimal_of(255), "255");
    assert_eq!(decimal_of(1_000_203), "1000203");
    assert_eq!(decimal_of(u32::MAX), "4294967295");
}

#[test]
fn decimal_appends_after_existing_bytes() {
    let mut out: Vec<u8> = b"x=".to_vec();
    push_decimal(&mut out, 42);
    assert_eq!(text(&out), "x=42");
}

#[test]
fn header_names_format_size_and_max_channel() {
    let mut out: Vec<u8> = Vec::new();
    write_header(&mut out, 300, 168);
    assert_eq!(text(&out), "P3\n300 168\n255\n");
}

#[test]
fn pixel_line_is_three_channels() {
    let mut out: Vec<u8> = Vec::new();
    write_pixel(&mut out, Rgb { r: 0, g: 128, b: 255 });
    assert_eq!(text(&out), "0 128 255\n");
}

#[test]
fn black_pixel_line() {
    let mut out: Vec<u8> = Vec::new();
    write_pixel(&mut out, Rgb { r: 0, g: 0, b: 0 });
    assert_eq!(text(&out), "0 0 0\n");
}

#[test]
fn two_by_two_image_has_four_pixel_lines() {
    let pixels = vec![
        Rgb { r: 127, g: 178, b: 255 },
        Rgb { r: 127, g: 178, b: 255 },
        Rgb { r: 90, g: 90, b: 90 },
        Rgb { r: 255, g: 255, b: 255 },
    ];
    let bytes = encode_image(2, 2, &pixels).unwrap();
    let s = text(&bytes);
    assert_eq!(s, "P3\n2 2\n255\n127 178 255\n127 178 255\n90 90 90\n255 255 255\n");
    let lines: Vec<&str> = s.lines().collect();
    assert_eq!(lines.len(), 3 + 4);
    for line in &lines[3..] {
        let channels: Vec<u32> = line.split(' ').map(|c| c.parse().unwrap()).collect();
        assert_eq!(channels.len(), 3);
        assert!(channels.iter().all(|c| *c <= 255));
    }
}

#[test]
fn wrong_pixel_count_is_refused() {
    let pixels = vec![Rgb { r: 1, g: 2, b: 3 }; 3];
    assert_eq!(encode_image(2, 2, &pixels), None);
    assert_eq!(encode_image(0, 5, &Vec::new()).map(|b| text(&b)), Some("P3\n0 5\n255\n".to_string()));
}
