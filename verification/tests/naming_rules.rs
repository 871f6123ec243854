use cbz_builder::format::{supported_format, ImageFormat, Sniffed};
use cbz_builder::naming::{digit_count, numbered_name, pad_number, pad_width};

#[test]
fn width_for_nine_images_is_two() {
    assert_eq!(pad_width(9), 2);
    assert_eq!(numbered_name(1, 9, ImageFormat::Png), "01.png");
    assert_eq!(numbered_name(9, 9, ImageFormat::Png), "09.png");
}

#[test]
fn width_for_ten_images_is_two() {
    assert_eq!(pad_width(10), 2);
    assert_eq!(numbered_name(1, 10, ImageFormat::Jpeg), "01.jpg");
    assert_eq!(numbered_name(10, 10, ImageFormat::Jpeg), "10.jpg");
}

#[test]
fn width_for_hundred_images_is_three() {
    assert_eq!(pad_width(100), 3);
    assert_eq!(numbered_name(1, 100, ImageFormat::Gif), "001.gif");
    assert_eq!(numbered_name(42, 100, ImageFormat::Gif), "042.gif");
    assert_eq!(numbered_name(100, 100, ImageFormat::Gif), "100.gif");
}

#[test]
fn width_at_the_edges() {
    assert_eq!(pad_width(0), 2);
    assert_eq!(pad_width(1), 2);
    assert_eq!(pad_width(99), 2);
    assert_eq!(pad_width(999), 3);
    assert_eq!(pad_width(1000), 4);
    assert_eq!(pad_width(usize::MAX), usize::MAX.to_string().len());
}

#[test]
fn digit_count_matches_decimal_length() {
    assert_eq!(digit_count(0), 1);
    assert_eq!(digit_count(7), 1);
    assert_eq!(digit_count(10), 2);
    assert_eq!(digit_count(12345), 5);
    assert_eq!(digit_count(usize::MAX), usize::MAX.to_string().len());
}

#[test]
fn pad_number_pads_on_the_left() {
    assert_eq!(pad_number(0, 2), "00");
    assert_eq!(pad_number(7, 3), "007");
    assert_eq!(pad_number(120, 3), "120");
}

#[test]
fn pad_number_keeps_wider_numerals() {
    assert_eq!(pad_number(1234, 2), "1234");
    assert_eq!(pad_number(5, 0), "5");
    assert_eq!(pad_number(usize::MAX, 2), usize::MAX.to_string());
}

#[test]
fn pad_number_agrees_with_std_formatting() {
    for n in [0usize, 1, 9, 10, 11, 99, 100, 101, 4096, 99999] {
        for width in 0usize..7 {
            assert_eq!(pad_number(n, width), format!("{:0width$}", n, width = width));
        }
    }
}

#[test]
fn extensions_are_canonical() {
    assert_eq!(ImageFormat::Jpeg.extension(), "jpg");
    assert_eq!(ImageFormat::Png.extension(), "png");
    assert_eq!(ImageFormat::Gif.extension(), "gif");
    assert_eq!(ImageFormat::WebP.extension(), "webp");
}

#[test]
fn numbered_name_for_each_format() {
    assert_eq!(numbered_name(3, 12, ImageFormat::WebP), "03.webp");
    assert_eq!(numbered_name(3, 1200, ImageFormat::Jpeg), "0003.jpg");
}

#[test]
fn only_four_formats_are_supported() {
    assert_eq!(supported_format(Sniffed::Jpeg), Some(ImageFormat::Jpeg));
    assert_eq!(supported_format(Sniffed::Png), Some(ImageFormat::Png));
    assert_eq!(supported_format(Sniffed::Gif), Some(ImageFormat::Gif));
    assert_eq!(supported_format(Sniffed::WebP), Some(ImageFormat::WebP));
    assert_eq!(supported_format(Sniffed::Other), None);
    assert_eq!(supported_format(Sniffed::Unknown), None);
}
