use buddhabrot::density::DensityBuffer;
use buddhabrot::tone::intensity;
use buddhabrot::tone::render_image;

#[test]
fn intensity_of_zero_is_zero() {
    assert_eq!(intensity(0, 1), 0);
    assert_eq!(intensity(0, 1000), 0);
}

#[test]
fn intensity_of_maximum_is_full() {
    assert_eq!(intensity(1, 1), 255);
    assert_eq!(intensity(123, 123), 255);
}

#[test]
fn intensity_of_half_maximum() {
    // (1/2)^(1/3) ~ 0.7937, times 255 ~ 202.39: rounds to 202.
    assert_eq!(intensity(1, 2), 202);
    assert_eq!(intensity(100, 200), 202);
}

#[test]
fn intensity_of_eighth_maximum() {
    // (1/8)^(1/3) = 1/2, times 255 = 127.5: rounds half up to 128.
    assert_eq!(intensity(1, 8), 128);
}

#[test]
fn render_uniform_buffer_with_single_peak() {
    // A buffer uniformly k with one cell at 2k maps the uniform cells to
    // 202 and the peak to 255.
    let k = 100;
    let mut buf = DensityBuffer::new(3, 2);
    for _ in 0..k {
        for x in 0..3 {
            for y in 0..2 {
                buf.accumulate_point(x, y);
            }
        }
    }
    for _ in 0..k {
        buf.accumulate_point(0, 0);
    }
    assert_eq!(buf.max_density(), 2 * k);
    let img = render_image(&buf);
    let bytes = img.to_bytes();
    let header = b"P6 3 2 255\n";
    assert_eq!(&bytes[..header.len()], header);
    let pixels = &bytes[header.len()..];
    assert_eq!(pixels.len(), 18);
    assert_eq!(&pixels[..3], &[255, 255, 255]);
    assert!(pixels[3..].iter().all(|&b| b == 202));
}

#[test]
fn render_all_zero_buffer_is_black() {
    // Nothing ever escaped: there is no maximum to normalize against,
    // and the image comes out black instead of failing.
    let buf = DensityBuffer::new(4, 4);
    let img = render_image(&buf);
    let bytes = img.to_bytes();
    let header = b"P6 4 4 255\n";
    assert_eq!(&bytes[..header.len()], header);
    assert!(bytes[header.len()..].iter().all(|&b| b == 0));
}

#[test]
fn render_keeps_dimensions() {
    let mut buf = DensityBuffer::new(7, 5);
    buf.accumulate_point(6, 4);
    let img = render_image(&buf);
    let bytes = img.to_bytes();
    let header = b"P6 7 5 255\n";
    assert_eq!(&bytes[..header.len()], header);
    assert_eq!(bytes.len(), header.len() + 3 * 7 * 5);
}
