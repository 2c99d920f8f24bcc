use juryrig::image::{RGBAImage, RGBAPixel};

fn px(r: u8, g: u8, b: u8, a: u8) -> RGBAPixel {
    RGBAPixel { r, g, b, a }
}

#[test]
fn get_pixel_reads_row_major() {
    let bytes: Vec<u8> = (0u8..24).collect();
    let img = RGBAImage::from_rgba8(3, 2, &bytes).unwrap();
    assert_eq!(img.get_pixel(0, 0), px(0, 1, 2, 3));
    assert_eq!(img.get_pixel(2, 0), px(8, 9, 10, 11));
    assert_eq!(img.get_pixel(0, 1), px(12, 13, 14, 15));
    assert_eq!(img.get_pixel(2, 1), px(20, 21, 22, 23));
    // A column past the row's end reads on into the next row.
    assert_eq!(img.get_pixel(3, 0), px(12, 13, 14, 15));
    assert_eq!(img.get_pixel(5, 0), px(20, 21, 22, 23));
}

#[test]
fn new_image_is_black_and_sized() {
    let img = RGBAImage::new(4, 5);
    assert_eq!(img.width, 4);
    assert_eq!(img.height, 5);
    assert_eq!(img.data.len(), 20);
    assert_eq!(img.get_pixel(3, 4), px(0, 0, 0, 0));
}

#[test]
fn empty_image() {
    let img = RGBAImage::new(0, 7);
    assert_eq!(img.data.len(), 0);
    assert_eq!(img.to_rgba8(), Vec::<u8>::new());
}

#[test]
fn from_rgba8_rejects_wrong_length() {
    assert!(RGBAImage::from_rgba8(2, 2, &vec![0u8; 15]).is_none());
    assert!(RGBAImage::from_rgba8(2, 2, &vec![0u8; 17]).is_none());
    assert!(RGBAImage::from_rgba8(2, 2, &vec![0u8; 16]).is_some());
}

#[test]
fn rgba8_round_trip_is_bit_exact() {
    let bytes: Vec<u8> = (0..16u32 * 16 * 4).map(|i| (i * 7 % 251) as u8).collect();
    let img = RGBAImage::from_rgba8(16, 16, &bytes).unwrap();
    assert_eq!(img.to_rgba8(), bytes);
    let again = RGBAImage::from_rgba8(16, 16, &img.to_rgba8()).unwrap();
    assert_eq!(again.data, img.data);
}

#[test]
fn validity_follows_extent() {
    let mut img = RGBAImage::new(3, 3);
    assert!(img.is_valid());
    img.data.pop();
    assert!(!img.is_valid());
}

#[test]
fn test_a() {
    assert_eq!(1, 1);
}
