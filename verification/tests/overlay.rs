use win_screen_core::overlay::{SelectionPaint, NEW_SELECTION_COLOR, SELECTION_COLOR};
use win_screen_core::overlay::size_label;
use win_screen_core::annotate::Point;
use win_screen_core::overlay::{
    apply_move, apply_resize, decision_code, decision_from_code, hit_test, selection_rect_from,
    toolbar_rect, Drag, Handle, HitZone, OverlayEvent, OverlayState, Phase, SelectionDecision,
};
use win_screen_core::Rect;

fn screen() -> Rect {
    Rect { x: 0, y: 0, width: 1920, height: 1080 }
}

fn sel() -> Rect {
    Rect { x: 100, y: 100, width: 200, height: 100 }
}

#[test]
fn hit_test_finds_handles_inside_and_outside() {
    assert_eq!(hit_test(sel(), Point { x: 100, y: 100 }), HitZone::Handle(Handle::TopLeft));
    assert_eq!(hit_test(sel(), Point { x: 300, y: 100 }), HitZone::Handle(Handle::TopRight));
    assert_eq!(hit_test(sel(), Point { x: 102, y: 205 }), HitZone::Handle(Handle::BottomLeft));
    assert_eq!(hit_test(sel(), Point { x: 200, y: 96 }), HitZone::Handle(Handle::Top));
    assert_eq!(hit_test(sel(), Point { x: 305, y: 150 }), HitZone::Handle(Handle::Right));
    assert_eq!(hit_test(sel(), Point { x: 150, y: 150 }), HitZone::Inside);
    assert_eq!(hit_test(sel(), Point { x: 50, y: 50 }), HitZone::Outside);
    assert_eq!(hit_test(sel(), Point { x: 309, y: 150 }), HitZone::Outside);
}

#[test]
fn move_follows_cursor_and_stays_on_screen() {
    let moved = apply_move(sel(), Point { x: 150, y: 150 }, Point { x: 160, y: 170 }, screen());
    assert_eq!(moved, Rect { x: 110, y: 120, width: 200, height: 100 });
    let far = apply_move(sel(), Point { x: 150, y: 150 }, Point { x: 5000, y: -5000 }, screen());
    assert_eq!(far, Rect { x: 1720, y: 0, width: 200, height: 100 });
}

#[test]
fn resize_moves_grabbed_edges_and_normalises() {
    let r = apply_resize(sel(), Handle::TopLeft, Point { x: 50, y: 60 }, screen());
    assert_eq!(r, Rect { x: 50, y: 60, width: 250, height: 140 });
    let flipped = apply_resize(sel(), Handle::Right, Point { x: 50, y: 0 }, screen());
    assert_eq!(flipped, Rect { x: 50, y: 100, width: 50, height: 100 });
    let thin = apply_resize(sel(), Handle::Right, Point { x: 100, y: 0 }, screen());
    assert_eq!(thin.width, 1);
    let clamped = apply_resize(sel(), Handle::BottomRight, Point { x: 4000, y: 4000 }, screen());
    assert_eq!(clamped, Rect { x: 100, y: 100, width: 1820, height: 980 });
}

#[test]
fn toolbar_goes_below_above_and_stays_on_screen() {
    assert_eq!(
        toolbar_rect(screen(), (300, 40), sel()),
        Rect { x: 100, y: 208, width: 300, height: 40 }
    );
    let low = Rect { x: 100, y: 1000, width: 200, height: 60 };
    assert_eq!(toolbar_rect(screen(), (300, 40), low).y, 952);
    let right = Rect { x: 1800, y: 100, width: 100, height: 100 };
    assert_eq!(toolbar_rect(screen(), (300, 40), right).x, 1620);
}

#[test]
fn selection_needs_two_pixels_each_way() {
    assert_eq!(selection_rect_from(Point { x: 10, y: 10 }, Point { x: 11, y: 30 }), None);
    assert_eq!(
        selection_rect_from(Point { x: 50, y: 60 }, Point { x: 10, y: 10 }),
        Some(Rect { x: 10, y: 10, width: 40, height: 50 })
    );
}

#[test]
fn decision_codes_round_trip() {
    for d in [SelectionDecision::Confirm, SelectionDecision::Pin, SelectionDecision::Cancel] {
        assert_eq!(decision_from_code(decision_code(d)), d);
    }
    assert_eq!(decision_code(SelectionDecision::Pin), 1);
    assert_eq!(decision_from_code(7), SelectionDecision::Confirm);
}

#[test]
fn one_shot_drag_selects_and_hands_to_decision() {
    let mut s = OverlayState::new(screen(), false, true, (0, 0));
    assert!(s.wants_window_hover());
    let fx = s.step(OverlayEvent::LeftDown { point: Point { x: 10, y: 10 } });
    assert!(fx.capture_mouse && fx.redraw);
    let fx = s.step(OverlayEvent::MouseMove { point: Point { x: 50, y: 60 }, window: None });
    assert!(fx.redraw);
    assert_eq!(s.active_rect(), Some(Rect { x: 10, y: 10, width: 40, height: 50 }));
    let fx = s.step(OverlayEvent::LeftUp { point: Point { x: 50, y: 60 } });
    assert!(fx.release_mouse);
    assert_eq!(fx.spawn_decide, Some(Rect { x: 10, y: 10, width: 40, height: 50 }));
    assert!(!s.decide_pending);
    let fx = s.step(OverlayEvent::DecideDone { code: 1 });
    assert!(fx.destroy);
    assert_eq!(
        s.outcome(),
        Some((Rect { x: 10, y: 10, width: 40, height: 50 }, SelectionDecision::Pin))
    );
    assert_eq!(s.accepted(), s.outcome());
}

#[test]
fn escape_and_right_click_cancel() {
    let mut s = OverlayState::new(screen(), false, true, (0, 0));
    s.step(OverlayEvent::LeftDown { point: Point { x: 10, y: 10 } });
    s.step(OverlayEvent::LeftUp { point: Point { x: 50, y: 60 } });
    let fx = s.step(OverlayEvent::KeyDown { key: 0x1b });
    assert!(fx.destroy);
    assert_eq!(s.outcome(), None);

    let mut t = OverlayState::new(screen(), true, false, (300, 40));
    let fx = t.step(OverlayEvent::RightDown);
    assert!(fx.destroy);
    assert_eq!(t.outcome(), None);
}

#[test]
fn other_keys_pass_through() {
    let mut s = OverlayState::new(screen(), false, true, (0, 0));
    let fx = s.step(OverlayEvent::KeyDown { key: 0x41 });
    assert!(!fx.handled);
}

#[test]
fn enter_takes_hovered_window_in_one_shot_mode() {
    let mut s = OverlayState::new(screen(), false, true, (0, 0));
    let win = Rect { x: 5, y: 5, width: 300, height: 200 };
    let fx = s.step(OverlayEvent::MouseMove { point: Point { x: 20, y: 20 }, window: Some(win) });
    assert!(fx.redraw);
    let fx = s.step(OverlayEvent::KeyDown { key: 0x0d });
    assert_eq!(fx.spawn_decide, Some(win));
    assert_eq!(s.result, Some(win));
}

#[test]
fn tiny_drag_selects_nothing() {
    let mut s = OverlayState::new(screen(), false, true, (0, 0));
    s.step(OverlayEvent::LeftDown { point: Point { x: 10, y: 10 } });
    let fx = s.step(OverlayEvent::LeftUp { point: Point { x: 11, y: 11 } });
    assert_eq!(fx.spawn_decide, None);
    assert_eq!(s.result, None);
    assert!(s.decide_pending);
}

#[test]
fn editable_selection_moves_and_confirms() {
    let mut s = OverlayState::new(screen(), true, false, (300, 40));
    s.step(OverlayEvent::LeftDown { point: Point { x: 10, y: 10 } });
    let fx = s.step(OverlayEvent::LeftUp { point: Point { x: 110, y: 60 } });
    let first = Rect { x: 10, y: 10, width: 100, height: 50 };
    assert!(fx.notify_ready);
    assert_eq!(fx.place_toolbar, Some(toolbar_rect(screen(), (300, 40), first)));
    assert_eq!(s.phase, Phase::Editing);
    assert_eq!(s.selection, Some(first));

    let fx = s.step(OverlayEvent::SetCursor { point: Point { x: 50, y: 30 } });
    assert_eq!(fx.cursor, Some(HitZone::Inside));

    let fx = s.step(OverlayEvent::LeftDown { point: Point { x: 50, y: 30 } });
    assert!(fx.hide_toolbar && fx.capture_mouse);
    assert_eq!(s.drag, Drag::Move);
    s.step(OverlayEvent::MouseMove { point: Point { x: 60, y: 40 }, window: None });
    let fx = s.step(OverlayEvent::LeftUp { point: Point { x: 60, y: 40 } });
    let moved = Rect { x: 20, y: 20, width: 100, height: 50 };
    assert_eq!(s.selection, Some(moved));
    assert_eq!(fx.place_toolbar, Some(toolbar_rect(screen(), (300, 40), moved)));

    let fx = s.step(OverlayEvent::KeyDown { key: 0x0d });
    assert!(fx.post_confirm);
    s.step(OverlayEvent::DecideDone { code: 0 });
    assert_eq!(s.outcome(), Some((moved, SelectionDecision::Confirm)));
}

#[test]
fn cancel_decision_leaves_nothing() {
    let mut s = OverlayState::new(screen(), true, false, (300, 40));
    s.step(OverlayEvent::LeftDown { point: Point { x: 10, y: 10 } });
    s.step(OverlayEvent::LeftUp { point: Point { x: 110, y: 60 } });
    s.step(OverlayEvent::DecideDone { code: 2 });
    assert_eq!(s.outcome(), None);
    assert_eq!(s.accepted(), None);
}

#[test]
fn readiness_is_announced_once() {
    let mut s = OverlayState::new(screen(), true, false, (300, 40));
    s.step(OverlayEvent::LeftDown { point: Point { x: 10, y: 10 } });
    let first = s.step(OverlayEvent::LeftUp { point: Point { x: 110, y: 60 } });
    assert!(first.notify_ready);
    s.step(OverlayEvent::LeftDown { point: Point { x: 500, y: 500 } });
    let second = s.step(OverlayEvent::LeftUp { point: Point { x: 600, y: 600 } });
    assert!(!second.notify_ready);
    assert_eq!(s.selection, Some(Rect { x: 500, y: 500, width: 100, height: 100 }));
}

#[test]
fn selection_paint_follows_the_state() {
    let mut s = OverlayState::new(screen(), true, false, (200, 40));
    s.drag = Drag::NewSelection;
    assert_eq!(
        s.selection_paint(),
        SelectionPaint { border_color: NEW_SELECTION_COLOR, handles: false, toolbar_hole: false }
    );
    assert_eq!(NEW_SELECTION_COLOR, 0x0000D7FF);
    s.drag = Drag::Idle;
    s.phase = Phase::Editing;
    s.selection = Some(sel());
    assert_eq!(
        s.selection_paint(),
        SelectionPaint { border_color: SELECTION_COLOR, handles: true, toolbar_hole: true }
    );
    s.drag = Drag::Move;
    assert_eq!(
        s.selection_paint(),
        SelectionPaint { border_color: 0x0000FF66, handles: true, toolbar_hole: false }
    );
    s.interactive = false;
    assert_eq!(
        s.selection_paint(),
        SelectionPaint { border_color: 0x0000FF66, handles: false, toolbar_hole: false }
    );
}

#[test]
fn size_label_sits_above_or_below() {
    let (text, r) = size_label(10, 100, 300, 640, 480);
    assert_eq!(text.into_iter().collect::<String>(), "640 x 480");
    assert_eq!(r, (10, 73, 86, 95));
    let (text, r) = size_label(10, 20, 300, 1234567, 7);
    assert_eq!(text.into_iter().collect::<String>(), "1234567 x 7");
    assert_eq!(r, (10, 305, 98, 327));
}
