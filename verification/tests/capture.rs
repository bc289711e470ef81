use win_screen_core::capture::{
    bgra_to_rgba, bitmap_len, capture_size, extract_size, frame_bounds_usable, image_from_bgra, monitor_list, window_bitmap_size,
    monitor_from_bounds, monitor_rect, monitor_rects, monitors_with_fallback,
    rect_intersects_virtual_screen, trim_whitespace, window_capture_size, window_entry, Bounds,
    MonitorInfo,
};
use win_screen_core::{Rect, WinScreenError};

fn screen() -> Rect {
    Rect { x: 0, y: 0, width: 1920, height: 1080 }
}

#[test]
fn capture_sizes_are_checked() {
    assert!(matches!(
        capture_size(Rect { x: 0, y: 0, width: 0, height: 5 }),
        Err(WinScreenError::InvalidRect(_))
    ));
    assert!(matches!(
        capture_size(Rect { x: 0, y: 0, width: 0x8000_0000, height: 5 }),
        Err(WinScreenError::InvalidRect(_))
    ));
    assert_eq!(capture_size(Rect { x: 3, y: 4, width: 640, height: 480 }).unwrap(), (640, 480));
}

#[test]
fn bitmap_length_fits_or_is_refused() {
    assert_eq!(bitmap_len(2, 3).unwrap(), 24);
    assert!(matches!(bitmap_len(65536, 65536), Err(WinScreenError::ImageTooLarge)));
}

#[test]
fn bgra_becomes_opaque_rgba() {
    assert_eq!(
        bgra_to_rgba(vec![1, 2, 3, 4, 5, 6, 7, 8, 9]),
        vec![3, 2, 1, 255, 7, 6, 5, 255, 9]
    );
    let img = image_from_bgra(1, 1, vec![10, 20, 30, 40]).unwrap();
    assert_eq!(img.rgba, vec![30, 20, 10, 255]);
    assert!(matches!(
        image_from_bgra(2, 2, vec![0; 4]),
        Err(WinScreenError::InvalidImageBuffer { expected: 16, actual: 4, .. })
    ));
}

#[test]
fn monitors_and_fallback() {
    let m = monitor_from_bounds(2, Bounds { left: -1920, top: 0, right: 0, bottom: 1080 }, 1);
    assert_eq!(
        m,
        MonitorInfo { id: 2, primary: true, rect: Rect { x: -1920, y: 0, width: 1920, height: 1080 } }
    );
    let odd = monitor_from_bounds(0, Bounds { left: 10, top: 10, right: 0, bottom: 0 }, 0);
    assert_eq!(odd.rect.width, 0);
    assert!(!odd.primary);
    let fallback = MonitorInfo { id: 0, primary: true, rect: screen() };
    assert_eq!(monitors_with_fallback(vec![], true, screen()), vec![fallback]);
    assert_eq!(monitors_with_fallback(vec![m], false, screen()), vec![m, fallback]);
    assert_eq!(monitors_with_fallback(vec![m], true, screen()), vec![m]);
    let rects = monitor_rects(&vec![m, fallback]);
    assert_eq!(rects, vec![m.rect, screen()]);
    assert_eq!(monitor_rect(&rects, 1).unwrap(), screen());
    assert!(matches!(
        monitor_rect(&rects, 2),
        Err(WinScreenError::NotImplemented { feature: "monitor id outside available display list" })
    ));
}

#[test]
fn window_bounds_and_sizes() {
    let r = Bounds { left: 10, top: 20, right: 110, bottom: 70 };
    assert!(frame_bounds_usable(true, r));
    assert!(!frame_bounds_usable(false, r));
    assert!(!frame_bounds_usable(true, Bounds { left: 10, top: 20, right: 10, bottom: 70 }));
    assert_eq!(window_capture_size(r).unwrap(), (100, 50));
    assert!(matches!(
        window_capture_size(Bounds { left: 10, top: 20, right: 5, bottom: 70 }),
        Err(WinScreenError::InvalidRect(Rect { x: 10, y: 20, width: 0, height: 0 }))
    ));
    assert!(rect_intersects_virtual_screen(r, screen()));
    assert!(!rect_intersects_virtual_screen(Bounds { left: -100, top: 0, right: 0, bottom: 50 }, screen()));
}

#[test]
fn trimming_whitespace() {
    assert_eq!(trim_whitespace("  hi there \t\n"), "hi there");
    assert_eq!(trim_whitespace("   "), "");
    assert_eq!(trim_whitespace(""), "");
    assert_eq!(trim_whitespace("\u{3000}x\u{a0}"), "x");
}

#[test]
fn windows_offered_for_capture() {
    let b = Some(Bounds { left: 0, top: 0, right: 800, bottom: 600 });
    let w = window_entry(42, true, false, "  Notepad ", b, screen()).unwrap();
    assert_eq!(w.hwnd, 42);
    assert_eq!(w.title, "Notepad");
    assert_eq!(w.rect, Rect { x: 0, y: 0, width: 800, height: 600 });
    assert!(window_entry(42, false, false, "Notepad", b, screen()).is_none());
    assert!(window_entry(42, true, true, "Notepad", b, screen()).is_none());
    assert!(window_entry(42, true, false, "   ", b, screen()).is_none());
    assert!(window_entry(42, true, false, "Notepad", None, screen()).is_none());
    assert!(window_entry(
        42,
        true,
        false,
        "Notepad",
        Some(Bounds { left: 0, top: 0, right: 0, bottom: 600 }),
        screen()
    )
    .is_none());
    assert!(window_entry(
        42,
        true,
        false,
        "Notepad",
        Some(Bounds { left: 3000, top: 0, right: 3800, bottom: 600 }),
        screen()
    )
    .is_none());
}

#[test]
fn extracting_needs_nonzero_sides_that_fit_i32() {
    assert!(matches!(
        extract_size(3, 4, 0, 5),
        Err(WinScreenError::InvalidRect(Rect { x: 3, y: 4, width: 0, height: 5 }))
    ));
    assert!(matches!(extract_size(3, 4, 0x8000_0000, 5), Err(WinScreenError::ImageTooLarge)));
    assert!(matches!(extract_size(3, 4, 5, u32::MAX), Err(WinScreenError::ImageTooLarge)));
    assert_eq!(extract_size(-3, 4, 10, 20).unwrap(), (10, 20));
}

#[test]
fn window_bitmap_rejects_huge_sides_only() {
    assert!(matches!(window_bitmap_size(0x8000_0000, 1), Err(WinScreenError::ImageTooLarge)));
    assert_eq!(window_bitmap_size(0, 7).unwrap(), (0, 7));
    assert_eq!(window_bitmap_size(0x7fff_ffff, 2).unwrap(), (0x7fff_ffff, 2));
}

#[test]
fn bgra_of_wrong_length_is_refused() {
    assert!(matches!(
        image_from_bgra(2, 1, vec![0; 7]),
        Err(WinScreenError::InvalidImageBuffer { width: 2, height: 1, expected: 8, actual: 7 })
    ));
}

#[test]
fn monitors_are_numbered_in_enumeration_order() {
    let a = Bounds { left: 0, top: 0, right: 1920, bottom: 1080 };
    let b = Bounds { left: 1920, top: 0, right: 3200, bottom: 1024 };
    let list = monitor_list(&vec![(a, 1), (b, 0)], true, screen());
    assert_eq!(list.len(), 2);
    assert_eq!((list[0].id, list[0].primary, list[0].rect), (0, true, Rect { x: 0, y: 0, width: 1920, height: 1080 }));
    assert_eq!((list[1].id, list[1].primary, list[1].rect), (1, false, Rect { x: 1920, y: 0, width: 1280, height: 1024 }));
    let fallback = monitor_list(&vec![], true, screen());
    assert_eq!(fallback.len(), 1);
    assert_eq!((fallback[0].id, fallback[0].primary, fallback[0].rect), (0, true, screen()));
    let failed = monitor_list(&vec![(b, 0)], false, screen());
    assert_eq!(failed.len(), 2);
    assert_eq!((failed[0].id, failed[1].id, failed[1].rect), (0, 0, screen()));
}
