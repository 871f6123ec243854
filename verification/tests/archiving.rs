use std::io::Read;

use cbz_builder::archive::{build_archive, entry_name, ArchiveError};
use cbz_builder::format::ImageFormat;
use cbz_builder::scan::{check_dir, DirEntry, ImageInfo};

fn encode(format: image::ImageFormat, shade: u8) -> Vec<u8> {
    let pixels = image::RgbImage::from_pixel(3, 3, image::Rgb([shade, 10, 30]));
    let mut out = std::io::Cursor::new(Vec::new());
    image::DynamicImage::ImageRgb8(pixels).write_to(&mut out, format).unwrap();
    out.into_inner()
}

fn file(name: &str, data: Vec<u8>) -> DirEntry {
    DirEntry { path: format!("book/{name}"), name: name.to_string(), is_file: true, data }
}

fn image(name: &str, format: ImageFormat, data: Vec<u8>) -> ImageInfo {
    ImageInfo { path: format!("book/{name}"), name: name.to_string(), format, data }
}

fn read_back(bytes: Vec<u8>) -> Vec<(String, Vec<u8>, bool)> {
    let mut archive = zip::ZipArchive::new(std::io::Cursor::new(bytes)).unwrap();
    let mut entries = Vec::new();
    for i in 0..archive.len() {
        let mut entry = archive.by_index(i).unwrap();
        let name = entry.name().unwrap().into_owned();
        let stored = entry.compression() == zip::CompressionMethod::Stored;
        let mut data = Vec::new();
        entry.read_to_end(&mut data).unwrap();
        entries.push((name, data, stored));
    }
    entries
}

#[test]
fn images_are_numbered_in_sorted_order() {
    let a = encode(image::ImageFormat::Png, 1);
    let b = encode(image::ImageFormat::Jpeg, 2);
    let c = encode(image::ImageFormat::Gif, 3);
    let d = encode(image::ImageFormat::WebP, 4);
    let scan = check_dir(
        vec![file("d.x", d.clone()), file("b.x", b.clone()), file("a.x", a.clone()), file("c.x", c.clone())],
        true,
    );
    assert!(scan.non_images.is_empty());
    let bytes = build_archive(&scan.images, &scan.excluded, false).unwrap();
    let entries = read_back(bytes);
    assert_eq!(
        entries,
        vec![
            ("01.png".to_string(), a, true),
            ("02.jpg".to_string(), b, true),
            ("03.gif".to_string(), c, true),
            ("04.webp".to_string(), d, true),
        ]
    );
}

#[test]
fn ten_images_are_padded_to_two_digits() {
    let images: Vec<ImageInfo> =
        (0..10u8).map(|i| image(&format!("p{i}"), ImageFormat::Png, vec![i; 5])).collect();
    let entries = read_back(build_archive(&images, &Vec::new(), false).unwrap());
    let names: Vec<String> = entries.iter().map(|e| e.0.clone()).collect();
    let expected: Vec<String> = (1..=10).map(|i| format!("{i:02}.png")).collect();
    assert_eq!(names, expected);
    for (i, entry) in entries.iter().enumerate() {
        assert_eq!(entry.1, vec![i as u8; 5]);
    }
}

#[test]
fn hundred_images_are_padded_to_three_digits() {
    let images: Vec<ImageInfo> =
        (0..100u8).map(|i| image(&format!("p{i}"), ImageFormat::Jpeg, vec![i])).collect();
    let entries = read_back(build_archive(&images, &Vec::new(), false).unwrap());
    assert_eq!(entries.len(), 100);
    assert_eq!(entries[0].0, "001.jpg");
    assert_eq!(entries[8].0, "009.jpg");
    assert_eq!(entries[9].0, "010.jpg");
    assert_eq!(entries[99].0, "100.jpg");
}

#[test]
fn no_rename_keeps_file_names() {
    let images = vec![
        image("cover final.PNG", ImageFormat::Png, vec![1, 2, 3]),
        image("page-2", ImageFormat::Gif, vec![4, 5]),
    ];
    let entries = read_back(build_archive(&images, &Vec::new(), true).unwrap());
    assert_eq!(
        entries,
        vec![
            ("cover final.PNG".to_string(), vec![1, 2, 3], true),
            ("page-2".to_string(), vec![4, 5], true),
        ]
    );
}

#[test]
fn sidecar_follows_the_images_under_its_own_name() {
    let png = encode(image::ImageFormat::Png, 9);
    let scan = check_dir(
        vec![file("ComicInfo.xml", b"<ComicInfo/>".to_vec()), file("a", png.clone()), file("z", png.clone())],
        false,
    );
    for no_rename in [false, true] {
        let entries = read_back(build_archive(&scan.images, &scan.excluded, no_rename).unwrap());
        assert_eq!(entries.len(), 3);
        assert_eq!(entries[0].0, if no_rename { "a" } else { "01.png" });
        assert_eq!(entries[1].0, if no_rename { "z" } else { "02.png" });
        assert_eq!(entries[2], ("ComicInfo.xml".to_string(), b"<ComicInfo/>".to_vec(), true));
    }
}

#[test]
fn empty_input_gives_an_empty_archive() {
    let bytes = build_archive(&Vec::new(), &Vec::new(), false).unwrap();
    assert!(read_back(bytes).is_empty());
}

#[test]
fn empty_file_is_stored_empty() {
    let images = vec![image("a", ImageFormat::Png, Vec::new())];
    let entries = read_back(build_archive(&images, &Vec::new(), false).unwrap());
    assert_eq!(entries, vec![("01.png".to_string(), Vec::new(), true)]);
}

#[test]
fn same_input_gives_same_bytes() {
    let images = vec![image("a", ImageFormat::Png, vec![7; 100]), image("b", ImageFormat::WebP, vec![8; 3])];
    let excluded = vec![file("ComicInfo.xml", vec![1])];
    let first = build_archive(&images, &excluded, false).unwrap();
    let second = build_archive(&images, &excluded, false).unwrap();
    assert_eq!(first, second);
}

#[test]
fn repeated_name_fails_at_that_entry() {
    let images = vec![image("same", ImageFormat::Png, vec![1]), image("same", ImageFormat::Png, vec![2])];
    match build_archive(&images, &Vec::new(), true) {
        Err(ArchiveError::Add { name, reason }) => {
            assert_eq!(name, "same");
            assert!(!reason.is_empty());
        }
        other => panic!("expected a failure to add, got {other:?}"),
    }
}

#[test]
fn entry_name_follows_the_switch() {
    let page = image("Page One.jpeg", ImageFormat::Jpeg, vec![0]);
    assert_eq!(entry_name(&page, 7, 12, true), "Page One.jpeg");
    assert_eq!(entry_name(&page, 7, 12, false), "07.jpg");
    assert_eq!(entry_name(&page, 7, 100, false), "007.jpg");
}

#[test]
fn overlong_name_fails_at_that_entry() {
    let long = "n".repeat(70_000);
    let images = vec![image("a", ImageFormat::Png, vec![1]), image(&long, ImageFormat::Png, vec![2])];
    match build_archive(&images, &Vec::new(), true) {
        Err(ArchiveError::Add { name, .. }) => assert_eq!(name, long),
        other => panic!("expected a failure to add, got {other:?}"),
    }
    let entries = read_back(build_archive(&images, &Vec::new(), false).unwrap());
    assert_eq!(entries.len(), 2);
}

#[test]
fn the_first_refused_entry_is_named() {
    let images = vec![
        image("a", ImageFormat::Png, vec![1]),
        image("b", ImageFormat::Png, vec![2]),
        image("b", ImageFormat::Png, vec![3]),
        image("a", ImageFormat::Png, vec![4]),
    ];
    match build_archive(&images, &Vec::new(), true) {
        Err(ArchiveError::Add { name, .. }) => assert_eq!(name, "b"),
        other => panic!("expected a failure to add, got {other:?}"),
    }
}

#[test]
fn sidecar_that_repeats_an_image_name_is_refused() {
    let images = vec![image("ComicInfo.xml", ImageFormat::Png, vec![1])];
    let excluded = vec![file("ComicInfo.xml", vec![2])];
    match build_archive(&images, &excluded, true) {
        Err(ArchiveError::Add { name, .. }) => assert_eq!(name, "ComicInfo.xml"),
        other => panic!("expected a failure to add, got {other:?}"),
    }
    assert_eq!(read_back(build_archive(&images, &excluded, false).unwrap()).len(), 2);
}
