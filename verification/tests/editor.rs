use win_screen_core::annotate::{
    AnnotationDocument, AnnotationEditAction, AnnotationShape, AnnotationTool, Color, Point,
    ShapePlan,
};
use win_screen_core::editor::{finish_edit, EditorAction, EditorEvent, EditorState};
use win_screen_core::{CapturedImage, Rect};

fn p(x: i32, y: i32) -> Point {
    Point { x, y }
}

#[test]
fn dragging_a_rectangle_adds_it() {
    let mut s = EditorState::new();
    assert_eq!(s.tool, AnnotationTool::Rectangle);
    assert_eq!(s.handle(EditorEvent::LeftDown { point: p(10, 10), toolbar: None }), EditorAction::CaptureMouse);
    assert_eq!(s.handle(EditorEvent::MouseMove { point: p(30, 40) }), EditorAction::Redraw);
    assert!(s.preview_shape().is_some());
    assert_eq!(s.handle(EditorEvent::LeftUp { point: p(30, 40) }), EditorAction::ReleaseMouse);
    assert_eq!(s.doc.shapes().len(), 1);
    assert!(matches!(
        s.doc.shapes()[0],
        AnnotationShape::Rectangle { rect: Rect { x: 10, y: 10, width: 20, height: 30 }, stroke_width: 3, .. }
    ));
}

#[test]
fn keys_switch_tools_undo_and_close() {
    let mut s = EditorState::new();
    assert_eq!(s.handle(EditorEvent::KeyDown { key: 0x33, ctrl: false }), EditorAction::Redraw);
    assert_eq!(s.tool, AnnotationTool::Arrow);
    s.handle(EditorEvent::KeyDown { key: 0x38, ctrl: false });
    assert_eq!(s.tool, AnnotationTool::Number);
    s.handle(EditorEvent::LeftDown { point: p(5, 5), toolbar: None });
    s.handle(EditorEvent::LeftDown { point: p(9, 9), toolbar: None });
    assert_eq!(s.doc.shapes().len(), 2);
    assert!(matches!(s.doc.shapes()[1], AnnotationShape::Number { value: 2, .. }));
    s.handle(EditorEvent::KeyDown { key: 0x5a, ctrl: true });
    assert_eq!(s.doc.shapes().len(), 1);
    s.handle(EditorEvent::KeyDown { key: 0x59, ctrl: true });
    assert_eq!(s.doc.shapes().len(), 2);
    assert_eq!(s.handle(EditorEvent::KeyDown { key: 0x1b, ctrl: false }), EditorAction::Cancel);
    assert_eq!(
        s.handle(EditorEvent::KeyDown { key: 0x0d, ctrl: false }),
        EditorAction::Finish(AnnotationEditAction::Confirm)
    );
    assert_eq!(s.handle(EditorEvent::RightDown), EditorAction::Cancel);
}

#[test]
fn toolbar_buttons() {
    let mut s = EditorState::new();
    assert_eq!(s.handle(EditorEvent::LeftDown { point: p(0, 0), toolbar: Some(1) }), EditorAction::Redraw);
    assert_eq!(s.tool, AnnotationTool::Ellipse);
    assert_eq!(
        s.handle(EditorEvent::LeftDown { point: p(0, 0), toolbar: Some(9) }),
        EditorAction::Finish(AnnotationEditAction::Pin)
    );
    assert_eq!(s.handle(EditorEvent::LeftDown { point: p(0, 0), toolbar: Some(10) }), EditorAction::Cancel);
}

#[test]
fn typing_text_commits_visible_text_only() {
    let mut s = EditorState::new();
    s.handle(EditorEvent::KeyDown { key: 0x36, ctrl: false });
    assert_eq!(s.tool, AnnotationTool::Text);
    s.handle(EditorEvent::LeftDown { point: p(3, 4), toolbar: None });
    for ch in ['h', 'i', 'x', '\u{8}'] {
        assert_eq!(s.handle(EditorEvent::Char { ch }), EditorAction::Redraw);
    }
    assert_eq!(s.text_buffer, "hi");
    s.handle(EditorEvent::Char { ch: '\r' });
    assert_eq!(s.doc.shapes().len(), 1);
    assert!(matches!(&s.doc.shapes()[0], AnnotationShape::Text { text, font_size: 22, .. } if text == "hi"));
    s.handle(EditorEvent::LeftDown { point: p(3, 4), toolbar: None });
    s.handle(EditorEvent::Char { ch: ' ' });
    s.handle(EditorEvent::KeyDown { key: 0x0d, ctrl: false });
    assert_eq!(s.doc.shapes().len(), 1);
    assert_eq!(s.handle(EditorEvent::Char { ch: 'z' }), EditorAction::PassThrough);
}

#[test]
fn finishing_renders_the_document() {
    let image = CapturedImage::new(2, 2, vec![0; 16]).unwrap();
    let mut doc = AnnotationDocument::new();
    doc.push(AnnotationShape::Line { start: p(0, 0), end: p(1, 1), stroke: Color::red(), stroke_width: 1 });
    let done = finish_edit(&doc, &image, &vec![ShapePlan::Plain], AnnotationEditAction::Pin).unwrap();
    assert_eq!(done.action, AnnotationEditAction::Pin);
    assert_eq!(&done.image.rgba[0..4], &[255, 64, 64, 255]);
    let mut bad = AnnotationDocument::new();
    bad.push(AnnotationShape::Mosaic { rect: Rect { x: 0, y: 0, width: 3, height: 1 }, block_size: 4 });
    assert!(finish_edit(&bad, &image, &vec![ShapePlan::Plain], AnnotationEditAction::Confirm).is_none());
}
