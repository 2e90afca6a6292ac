use buddhabrot::ppm::Color;
use buddhabrot::ppm::PPM;
use buddhabrot::ppm::u32_to_decimal;

#[test]
fn color_new_keeps_channels() {
    let c = Color::new(1, 2, 3);
    assert_eq!(c.r, 1);
    assert_eq!(c.g, 2);
    assert_eq!(c.b, 3);
}

#[test]
fn decimal_of_zero() {
    assert_eq!(u32_to_decimal(0), b"0".to_vec());
}

#[test]
fn decimal_of_single_digit() {
    assert_eq!(u32_to_decimal(7), b"7".to_vec());
}

#[test]
fn decimal_of_image_dimensions() {
    assert_eq!(u32_to_decimal(1440), b"1440".to_vec());
    assert_eq!(u32_to_decimal(1080), b"1080".to_vec());
}

#[test]
fn decimal_of_round_number() {
    assert_eq!(u32_to_decimal(1000), b"1000".to_vec());
}

#[test]
fn file_bytes_of_two_by_two() {
    let img = PPM::new(2, 2);
    let bytes = img.to_bytes();
    let header = b"P6 2 2 255\n";
    assert_eq!(&bytes[..header.len()], header);
    assert_eq!(bytes.len(), header.len() + 12);
    assert!(bytes[header.len()..].iter().all(|&b| b == 0));
}

#[test]
fn set_pixel_lands_in_file_bytes() {
    let mut img = PPM::new(2, 1);
    img.set_pixel_direct(3, Color::new(10, 20, 30));
    let bytes = img.to_bytes();
    let header = b"P6 2 1 255\n";
    assert_eq!(&bytes[..header.len()], header);
    assert_eq!(&bytes[header.len()..], &[0, 0, 0, 10, 20, 30]);
}

#[test]
fn header_of_large_image() {
    let img = PPM::new(1440, 1080);
    let bytes = img.to_bytes();
    let header = b"P6 1440 1080 255\n";
    assert_eq!(&bytes[..header.len()], header);
    assert_eq!(bytes.len(), header.len() + 3 * 1440 * 1080);
}
