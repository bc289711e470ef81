use win_screen_core::annotate::{normalize_rect, Color, Point};
use win_screen_core::raster::{
    clip_rect_to_image, draw_line, draw_rect, mosaic, pixel_offset, set_pixel,
    validate_rect_for_image,
};
use win_screen_core::{CapturedImage, Rect, WinScreenError};

fn black(w: u32, h: u32) -> CapturedImage {
    let mut rgba = Vec::new();
    for _ in 0..(w * h) {
        rgba.extend_from_slice(&[0, 0, 0, 255]);
    }
    CapturedImage::new(w, h, rgba).unwrap()
}

fn px(img: &CapturedImage, x: usize, y: usize) -> [u8; 4] {
    let o = (y * img.width as usize + x) * 4;
    [img.rgba[o], img.rgba[o + 1], img.rgba[o + 2], img.rgba[o + 3]]
}

#[test]
fn pixel_offsets_inside_only() {
    let img = black(3, 2);
    assert_eq!(pixel_offset(&img, 1, 1), Some(16));
    assert_eq!(pixel_offset(&img, -1, 0), None);
    assert_eq!(pixel_offset(&img, 3, 0), None);
    assert_eq!(pixel_offset(&img, 0, 2), None);
}

#[test]
fn set_pixel_blends_and_makes_opaque() {
    let mut img = black(2, 2);
    set_pixel(&mut img, 1, 0, Color::red());
    assert_eq!(px(&img, 1, 0), [255, 64, 64, 255]);
    set_pixel(&mut img, 0, 0, Color { r: 255, g: 255, b: 255, a: 0 });
    assert_eq!(px(&img, 0, 0), [0, 0, 0, 255]);
    set_pixel(&mut img, 5, 5, Color::red());
    assert_eq!(img.rgba.iter().filter(|v| **v == 255).count(), 5);
}

#[test]
fn line_covers_both_ends() {
    let mut img = black(5, 5);
    draw_line(&mut img, Point { x: 0, y: 0 }, Point { x: 4, y: 4 }, Color::red(), 1);
    for i in 0..5 {
        assert_eq!(px(&img, i, i), [255, 64, 64, 255]);
    }
    assert_eq!(px(&img, 1, 0), [0, 0, 0, 255]);
}

#[test]
fn rectangle_outline_and_refusal() {
    let mut img = black(4, 4);
    draw_rect(&mut img, Rect { x: 0, y: 0, width: 4, height: 4 }, Color::red(), 1).unwrap();
    assert_eq!(px(&img, 0, 0), [255, 64, 64, 255]);
    assert_eq!(px(&img, 3, 3), [255, 64, 64, 255]);
    assert_eq!(px(&img, 1, 1), [0, 0, 0, 255]);
    assert!(matches!(
        draw_rect(&mut img, Rect { x: 2, y: 2, width: 4, height: 1 }, Color::red(), 1),
        Err(WinScreenError::InvalidRect(_))
    ));
    assert!(validate_rect_for_image(&img, Rect { x: 0, y: 0, width: 4, height: 4 }).is_ok());
    assert!(validate_rect_for_image(&img, Rect { x: 4, y: 0, width: 1, height: 1 }).is_err());
}

#[test]
fn mosaic_averages_blocks() {
    let mut rgba = Vec::new();
    for x in 0..4u8 {
        rgba.extend_from_slice(&[x * 40, 0, 0, 255]);
    }
    let mut img = CapturedImage::new(4, 1, rgba).unwrap();
    mosaic(&mut img, Rect { x: 0, y: 0, width: 4, height: 1 }, 2).unwrap();
    for x in 0..4 {
        assert_eq!(px(&img, x, 0), [60, 0, 0, 255]);
    }
    assert!(mosaic(&mut img, Rect { x: 0, y: 0, width: 5, height: 1 }, 2).is_err());
}

#[test]
fn clipping_and_normalising() {
    let img = black(10, 10);
    assert_eq!(clip_rect_to_image(&img, -5, 3, 8, 20), Rect { x: 0, y: 3, width: 3, height: 7 });
    assert_eq!(clip_rect_to_image(&img, 20, 20, 5, 5), Rect { x: 9, y: 9, width: 1, height: 1 });
    assert_eq!(
        normalize_rect(Point { x: 5, y: 9 }, Point { x: 1, y: 2 }),
        Some(Rect { x: 1, y: 2, width: 4, height: 7 })
    );
    assert_eq!(normalize_rect(Point { x: 5, y: 9 }, Point { x: 5, y: 2 }), None);
}
