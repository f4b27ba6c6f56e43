use tinyrenderer::image::Image;
use tinyrenderer::text::{parse_whole_number, push_decimal};

#[test]
fn pixmap_has_header_and_channels() {
    let mut image = Image::make(2, 1);
    image.put(0, 0, [1, 2, 3]);
    image.put(1, 0, [250, 251, 252]);
    let mut out = Vec::new();
    image.write(&mut out);
    let mut expected = format!("{}{} 2 1 255\n", 'P', 6).into_bytes();
    expected.extend_from_slice(&[1, 2, 3, 250, 251, 252]);
    assert_eq!(out, expected);
}

#[test]
fn pixmap_is_appended() {
    let mut out = b"before".to_vec();
    Image::make(12, 340).write(&mut out);
    assert!(out.starts_with(format!("before{}{} 12 340 255\n", 'P', 6).as_bytes()));
    assert_eq!(out.len(), 20 + 3 * 12 * 340);
    assert!(out[20..].iter().all(|b| *b == 0));
}

#[test]
fn empty_pixmap_is_its_header() {
    let mut out = Vec::new();
    Image::make(0, 0).write(&mut out);
    assert_eq!(out, format!("{}{} 0 0 255\n", 'P', 6).into_bytes());
}

#[test]
fn pixmap_ignores_the_orientation() {
    let mut image = Image::make(1, 2);
    image.pixels[0] = [9, 9, 9];
    let mut plain = Vec::new();
    image.write(&mut plain);
    image.flip();
    let mut flipped = Vec::new();
    image.write(&mut flipped);
    assert_eq!(plain, flipped);
    assert_eq!(&plain[11..], &[9, 9, 9, 0, 0, 0]);
}

#[test]
fn decimal_is_written_without_leading_zeros() {
    for (n, text) in [(0usize, "0"), (7, "7"), (10, "10"), (255, "255"), (1000, "1000"), (90210, "90210")]
    {
        let mut out = vec![b'x'];
        push_decimal(&mut out, n);
        assert_eq!(out, format!("x{}", text).into_bytes());
    }
    let mut out = Vec::new();
    push_decimal(&mut out, usize::MAX);
    assert_eq!(out, format!("{}", usize::MAX).into_bytes());
}

#[test]
fn decimal_is_read_back() {
    for n in [0usize, 1, 9, 10, 99, 100, 65535, usize::MAX - 1, usize::MAX] {
        let mut out = Vec::new();
        push_decimal(&mut out, n);
        assert_eq!(parse_whole_number(&out), Some(n));
    }
}

#[test]
fn whole_numbers_are_read_as_std_reads_them() {
    let too_large = format!("{}0", usize::MAX);
    let one_more = "18446744073709551616";
    for text in [
        "0", "1", "42", "007", "+5", "+", "", "-5", " 5", "5 ", "1.0", "1e3", "12a", "++1",
        "18446744073709551615", one_more, too_large.as_str(), "00000000000000000000000000001",
        "99999999999999999999999",
    ] {
        assert_eq!(parse_whole_number(text.as_bytes()), text.parse::<usize>().ok(), "{:?}", text);
    }
}
