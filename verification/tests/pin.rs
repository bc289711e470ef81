use win_screen_core::api::RecordingHandle;
use win_screen_core::api::{HandleIds, Pin, PinHandle};
use win_screen_core::pin::{
    close_pin, ctrl_pressed, list_pins, pin_image, requested_alpha, wheel_delta, wheel_opacity,
    PinAction, PinEntry, PinEvent, PinRegistry, PinWindowState,
};
use win_screen_core::{Size, WinScreenError};

fn entry(hwnd: usize, w: u32, h: u32) -> PinEntry {
    PinEntry { hwnd, size: Size { width: w, height: h } }
}

#[test]
fn handle_ids_count_up_from_one() {
    let mut ids = HandleIds::new();
    let a = PinHandle::next(&mut ids);
    let b = PinHandle::next(&mut ids);
    assert_eq!(a.id(), 1);
    assert_eq!(b.id(), 2);
}

#[test]
fn registry_lists_records_and_forgets() {
    let mut reg = PinRegistry::new();
    reg.insert(1, entry(10, 4, 3));
    reg.insert(2, entry(20, 8, 6));
    let mut ids: Vec<u64> = list_pins(&reg).unwrap().iter().map(|p| p.id).collect();
    ids.sort();
    assert_eq!(ids, vec![1, 2]);
    assert_eq!(reg.get(2), Some(entry(20, 8, 6)));
    assert_eq!(reg.remove(1), Some(entry(10, 4, 3)));
    assert_eq!(reg.remove(1), None);
    let listed = Pin::list(&reg).unwrap();
    assert_eq!(listed.len(), 1);
    assert_eq!(listed[0].id, 2);
    assert_eq!(listed[0].size, Size { width: 8, height: 6 });
}

#[test]
fn opacity_for_unknown_pin_is_refused() {
    let reg = PinRegistry::new();
    assert!(matches!(
        reg.entry_for_opacity(5),
        Err(WinScreenError::NotImplemented { feature: "pin handle not found" })
    ));
}

#[test]
fn pin_image_records_only_started_windows() {
    let mut ids = HandleIds::new();
    let mut reg = PinRegistry::new();
    let h = PinHandle::next(&mut ids);
    assert!(matches!(
        pin_image(&mut reg, h, Size { width: 2, height: 2 }, None),
        Err(WinScreenError::NotImplemented { feature: "pin window startup timed out" })
    ));
    let h = PinHandle::next(&mut ids);
    assert!(matches!(
        pin_image(&mut reg, h, Size { width: 2, height: 2 }, Some(Err(WinScreenError::UnsupportedPlatform))),
        Err(WinScreenError::UnsupportedPlatform)
    ));
    assert!(list_pins(&reg).unwrap().is_empty());
    let h = PinHandle::next(&mut ids);
    let got = pin_image(&mut reg, h, Size { width: 2, height: 2 }, Some(Ok(7))).unwrap();
    assert_eq!(got.id(), 3);
    assert_eq!(reg.get(3), Some(entry(7, 2, 2)));
    assert_eq!(got.close(&mut reg), Some(entry(7, 2, 2)));
    assert_eq!(close_pin(&mut reg, 3), None);
    assert!(list_pins(&reg).unwrap().is_empty());
}

#[test]
fn wheel_message_fields() {
    assert_eq!(wheel_delta(0x0078_0000), 120);
    assert_eq!(wheel_delta(0xff88_0000), -120);
    assert_eq!(wheel_delta(0xff88_0008), -120);
    assert!(ctrl_pressed(0x0008));
    assert!(!ctrl_pressed(0x0004));
}

#[test]
fn opacity_steps_and_bounds() {
    assert_eq!(wheel_opacity(255, 120), 255);
    assert_eq!(wheel_opacity(255, -120), 237);
    assert_eq!(wheel_opacity(40, -120), 38);
    assert_eq!(wheel_opacity(100, 120), 118);
    assert_eq!(wheel_opacity(wheel_opacity(100, 120), -120), 100);
    assert_eq!(requested_alpha(0), 26);
    assert_eq!(requested_alpha(300), 255);
    assert_eq!(requested_alpha(128), 128);
}

#[test]
fn pin_window_reacts_to_events() {
    let mut s = PinWindowState::new(7, 400, 300);
    assert_eq!(s.handle(PinEvent::LeftDown), PinAction::BeginDrag);
    assert_eq!(s.handle(PinEvent::DoubleClick), PinAction::Resize { width: 400, height: 300 });
    assert_eq!(s.handle(PinEvent::Wheel { wparam: 0xff88_0008 }), PinAction::SetAlpha(237));
    assert_eq!(s.opacity, 237);
    assert_eq!(s.handle(PinEvent::Wheel { wparam: 0x0078_0000 }), PinAction::Zoom { delta: 120 });
    assert_eq!(s.opacity, 237);
    assert_eq!(s.handle(PinEvent::SetOpacity { wparam: 10 }), PinAction::SetAlpha(26));
    assert_eq!(s.opacity, 26);
    assert_eq!(s.handle(PinEvent::RightDown), PinAction::Close);
    assert_eq!(s.handle(PinEvent::Destroyed), PinAction::Unregister(7));
    assert_eq!(s.handle(PinEvent::Other), PinAction::PassThrough);
}

#[test]
fn pins_and_recordings_share_increasing_ids() {
    let mut ids = HandleIds::new();
    let a = PinHandle::next(&mut ids).id();
    let b = RecordingHandle::next(&mut ids).id();
    let c = PinHandle::next(&mut ids).id();
    assert!(1 <= a && a < b && b < c);
}

#[test]
fn listing_names_each_pin_once() {
    let mut reg = PinRegistry::new();
    for id in 1..=5u64 {
        reg.insert(id, entry(id as usize, id as u32, 1));
    }
    reg.insert(3, entry(33, 9, 9));
    let listed = list_pins(&reg).unwrap();
    assert_eq!(listed.len(), 5);
    let mut ids: Vec<u64> = listed.iter().map(|p| p.id).collect();
    ids.sort();
    ids.dedup();
    assert_eq!(ids.len(), 5);
    assert_eq!(listed.iter().filter(|p| p.id == 3).count(), 1);
    assert_eq!(listed.iter().find(|p| p.id == 3).unwrap().size, Size { width: 9, height: 9 });
}
