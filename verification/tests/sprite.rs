use std::io::Cursor;

use desktop_neko::package::sprite::{load_sprite_sheet, slice_sprite_sheet, RgbaSheet};

/// A sheet whose pixel at (x, y) has bytes [x, y, x + y, 255] (mod 256).
fn sheet(width: u32, height: u32) -> RgbaSheet {
    let mut pixels = Vec::new();
    for y in 0..height {
        for x in 0..width {
            pixels.extend_from_slice(&[x as u8, y as u8, (x + y) as u8, 255]);
        }
    }
    RgbaSheet { width, height, pixels }
}

fn png(sheet: &RgbaSheet) -> Vec<u8> {
    let img = image::RgbaImage::from_raw(sheet.width, sheet.height, sheet.pixels.clone()).unwrap();
    let mut out = Vec::new();
    image::DynamicImage::ImageRgba8(img)
        .write_to(&mut Cursor::new(&mut out), image::ImageFormat::Png)
        .unwrap();
    out
}

fn pixel(frame: &[u8], width: u32, x: u32, y: u32) -> [u8; 4] {
    let i = ((y * width + x) * 4) as usize;
    [frame[i], frame[i + 1], frame[i + 2], frame[i + 3]]
}

#[test]
fn slice_guide_layout_four_frames() {
    // the layout the package guide asks for: 4 frames of 64 x 64 in a 256 x 64 sheet
    let s = sheet(256, 64);
    let frames = slice_sprite_sheet(&s, 4, 64, 64).unwrap();
    assert_eq!(frames.len(), 4);
    for (i, f) in frames.iter().enumerate() {
        assert_eq!(f.width, 64);
        assert_eq!(f.height, 64);
        assert_eq!(f.rgba.len(), 64 * 64 * 4);
        let x0 = (i as u32) * 64;
        assert_eq!(pixel(&f.rgba, 64, 0, 0), [x0 as u8, 0, x0 as u8, 255]);
        assert_eq!(pixel(&f.rgba, 64, 5, 7), [(x0 + 5) as u8, 7, (x0 + 12) as u8, 255]);
        assert_eq!(pixel(&f.rgba, 64, 63, 63), [(x0 + 63) as u8, 63, (x0 + 126) as u8, 255]);
    }
}

#[test]
fn slice_exact_bytes_small_sheet() {
    let s = sheet(4, 2);
    let frames = slice_sprite_sheet(&s, 2, 2, 2).unwrap();
    assert_eq!(
        frames[1].rgba,
        vec![2, 0, 2, 255, 3, 0, 3, 255, 2, 1, 3, 255, 3, 1, 4, 255]
    );
}

#[test]
fn slice_wider_sheet_ignores_the_rest() {
    let s = sheet(10, 3);
    let frames = slice_sprite_sheet(&s, 3, 3, 2).unwrap();
    assert_eq!(frames.len(), 3);
    assert_eq!(pixel(&frames[2].rgba, 3, 2, 1), [8, 1, 9, 255]);
}

#[test]
fn slice_too_narrow_sheet_fails() {
    let s = sheet(100, 10);
    let err = slice_sprite_sheet(&s, 4, 26, 10).unwrap_err();
    assert_eq!(err, "Sprite sheet image too small for declared frame count");
}

#[test]
fn slice_zero_frames_is_empty() {
    let s = sheet(1, 1);
    assert!(slice_sprite_sheet(&s, 0, 50, 50).unwrap().is_empty());
}

#[test]
fn load_decodes_png_then_slices() {
    let s = sheet(6, 3);
    let frames = load_sprite_sheet(&png(&s), 3, 2, 3).unwrap();
    assert_eq!(frames.len(), 3);
    assert_eq!(pixel(&frames[2].rgba, 2, 1, 2), [5, 2, 7, 255]);
    assert_eq!(frames[0].rgba, slice_sprite_sheet(&s, 3, 2, 3).unwrap()[0].rgba);
}

#[test]
fn load_rejects_bytes_that_are_no_image() {
    let err = load_sprite_sheet(b"definitely not an image", 1, 1, 1).unwrap_err();
    assert!(!err.is_empty());
    assert_ne!(err, "Sprite sheet image too small for declared frame count");
}

#[test]
fn load_too_narrow_png_fails() {
    let s = sheet(6, 3);
    let err = load_sprite_sheet(&png(&s), 4, 2, 3).unwrap_err();
    assert_eq!(err, "Sprite sheet image too small for declared frame count");
}

#[test]
fn load_frames_taller_than_sheet_fail() {
    let s = sheet(6, 3);
    let err = load_sprite_sheet(&png(&s), 2, 3, 4).unwrap_err();
    assert_eq!(err, "Sprite sheet frames do not fit the image");
}

#[test]
fn load_too_narrow_wins_over_height() {
    // the first frame is already wider than the sheet: that is the error
    let s = sheet(6, 3);
    let err = load_sprite_sheet(&png(&s), 1, 7, 9).unwrap_err();
    assert_eq!(err, "Sprite sheet image too small for declared frame count");
}
