use std::rc::Rc;

use liteparse_ooxml::dimension::Dimension;
use liteparse_ooxml::model::drawing::RelativeRect;
use liteparse_ooxml::model::image::{ImageFormat, MediaEntry};
use liteparse_ooxml::render::pixels::{prepare, prepare_image, CropRect, Pixels};

fn pixels(width: u32, height: u32) -> Pixels {
    let rgba = (0..width * height).flat_map(|i| [i as u8, 100, 200, 255]).collect();
    Pixels { width, height, rgba }
}

fn reds(p: &Pixels) -> Vec<u8> {
    p.rgba.chunks(4).map(|c| c[0]).collect()
}

#[test]
fn a_whole_picture_stays_as_it_is() {
    let r = prepare(&pixels(3, 2), None).unwrap();
    assert_eq!((r.width, r.height), (3, 2));
    assert_eq!(reds(&r), [0, 1, 2, 3, 4, 5]);
}

#[test]
fn a_picture_is_cut_to_what_is_shown() {
    let crop = CropRect { x: 25_000, y: 50_000, width: 50_000, height: 50_000 };
    let r = prepare(&pixels(4, 2), Some(crop)).unwrap();
    assert_eq!((r.width, r.height), (2, 1));
    assert_eq!(reds(&r), [5, 6]);
}

#[test]
fn at_least_one_pixel_is_shown_but_no_more_than_there_are() {
    let thin = CropRect { x: 0, y: 0, width: 0, height: -5 };
    let r = prepare(&pixels(4, 2), Some(thin)).unwrap();
    assert_eq!((r.width, r.height), (1, 1));
    let wide = CropRect { x: 50_000, y: 0, width: 900_000, height: 100_000 };
    let r = prepare(&pixels(4, 2), Some(wide)).unwrap();
    assert_eq!((r.width, r.height), (2, 2));
    assert_eq!(reds(&r), [2, 3, 6, 7]);
    let beyond = CropRect { x: 100_000, y: 0, width: 10_000, height: 100_000 };
    assert!(prepare(&pixels(4, 2), Some(beyond)).is_none());
}

#[test]
fn colours_are_weighted_by_opacity() {
    let p = Pixels { width: 2, height: 1, rgba: vec![200, 100, 50, 128, 9, 9, 9, 0] };
    let r = prepare(&p, None).unwrap();
    assert_eq!(r.rgba, vec![100, 50, 25, 128, 0, 0, 0, 0]);
}

#[test]
fn pixels_that_are_not_whole_are_not_drawn() {
    let p = Pixels { width: 2, height: 2, rgba: vec![0; 12] };
    assert!(prepare(&p, None).is_none());
    let none = Pixels { width: 0, height: 3, rgba: vec![] };
    assert!(prepare(&none, None).is_none());
}

#[test]
fn cuts_become_the_part_that_is_left() {
    let cut = RelativeRect {
        left: Some(Dimension::new(25_000)),
        top: None,
        right: Some(Dimension::new(10_000)),
        bottom: Some(Dimension::new(10_000)),
    };
    let crop = CropRect::from_cut(&cut);
    assert_eq!(crop, CropRect { x: 25_000, y: 0, width: 65_000, height: 90_000 });
}

/// Two pixels, a red one and a green one, without compression.
fn bitmap() -> Vec<u8> {
    let mut b: Vec<u8> = b"BM".to_vec();
    for n in [62u32, 0, 54, 40, 2, 1] {
        b.extend(n.to_le_bytes());
    }
    b.extend(1u16.to_le_bytes());
    b.extend(24u16.to_le_bytes());
    for n in [0u32, 8, 0, 0, 0, 0] {
        b.extend(n.to_le_bytes());
    }
    b.extend([0, 0, 255, 0, 255, 0, 0, 0]);
    b
}

fn media(data: Vec<u8>, format: ImageFormat) -> MediaEntry {
    MediaEntry { data: Rc::new(data), format }
}

#[test]
fn a_picture_is_decoded() {
    let r = prepare_image(&media(bitmap(), ImageFormat::Bmp), None).unwrap();
    assert_eq!((r.width, r.height), (2, 1));
    assert_eq!(r.rgba, vec![255, 0, 0, 255, 0, 255, 0, 255]);
    let crop = CropRect { x: 50_000, y: 0, width: 50_000, height: 100_000 };
    let r = prepare_image(&media(bitmap(), ImageFormat::Bmp), Some(crop)).unwrap();
    assert_eq!(r.rgba, vec![0, 255, 0, 255]);
}

#[test]
fn drawings_and_broken_pictures_are_not_drawn() {
    for format in [ImageFormat::Emf, ImageFormat::Wmf, ImageFormat::Svg, ImageFormat::Unknown] {
        assert!(prepare_image(&media(bitmap(), format), None).is_none());
    }
    assert!(prepare_image(&media(vec![1, 2, 3], ImageFormat::Png), None).is_none());
}
