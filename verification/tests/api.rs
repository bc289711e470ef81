use win_screen_core::api::{InteractiveCaptureOptions, Size};
use win_screen_core::{CapturedImage, Rect, WinScreenError};

fn image3x2() -> CapturedImage {
    let rgba: Vec<u8> = (0..24).collect();
    CapturedImage::new(3, 2, rgba).unwrap()
}

#[test]
fn rect_needs_both_sides() {
    assert!(matches!(Rect::new(1, 2, 0, 5), Err(WinScreenError::InvalidRect(Rect { x: 1, y: 2, width: 0, height: 5 }))));
    assert!(matches!(Rect::new(1, 2, 5, 0), Err(WinScreenError::InvalidRect(_))));
    assert_eq!(Rect::new(-4, 2, 5, 6).unwrap(), Rect { x: -4, y: 2, width: 5, height: 6 });
}

#[test]
fn image_buffer_is_checked() {
    assert!(matches!(
        CapturedImage::new(2, 2, vec![0; 15]),
        Err(WinScreenError::InvalidImageBuffer { width: 2, height: 2, expected: 16, actual: 15 })
    ));
    assert!(matches!(CapturedImage::new(65536, 65536, vec![]), Err(WinScreenError::ImageTooLarge)));
    assert_eq!(image3x2().size(), Size { width: 3, height: 2 });
}

#[test]
fn crop_copies_the_rows_of_the_rectangle() {
    let c = image3x2().crop(Rect { x: 1, y: 0, width: 2, height: 2 }).unwrap();
    assert_eq!((c.width, c.height), (2, 2));
    assert_eq!(c.rgba, vec![4, 5, 6, 7, 8, 9, 10, 11, 16, 17, 18, 19, 20, 21, 22, 23]);
    assert!(matches!(
        image3x2().crop(Rect { x: 2, y: 0, width: 2, height: 1 }),
        Err(WinScreenError::InvalidRect(_))
    ));
    assert!(matches!(
        image3x2().crop(Rect { x: -1, y: 0, width: 1, height: 1 }),
        Err(WinScreenError::InvalidRect(_))
    ));
    assert!(matches!(
        image3x2().crop(Rect { x: 0, y: 0, width: 0, height: 1 }),
        Err(WinScreenError::InvalidRect(_))
    ));
}

#[test]
fn interactive_capture_defaults() {
    let o = InteractiveCaptureOptions::default();
    assert!(o.annotate && o.copy_to_clipboard && o.save_path.is_none());
}
