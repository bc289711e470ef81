use win_screen_core::annotate::{Annotation, AnnotationDocument, AnnotationShape, Color, Point, ShapePlan};
use win_screen_core::{CapturedImage, Rect};

#[test]
fn undo_redo_round_trip() {
    let mut doc = AnnotationDocument::new();
    doc.push(AnnotationShape::Line {
        start: Point { x: 0, y: 0 },
        end: Point { x: 3, y: 3 },
        stroke: Color::red(),
        stroke_width: 1,
    });
    assert_eq!(doc.shapes().len(), 1);
    assert!(doc.undo());
    assert!(doc.is_empty());
    assert!(doc.redo());
    assert_eq!(doc.shapes().len(), 1);
}

#[test]
fn mosaic_changes_target_region() {
    let mut rgba = Vec::new();
    for y in 0..4 {
        for x in 0..4 {
            rgba.extend_from_slice(&[(x * 40) as u8, (y * 40) as u8, 0, 255]);
        }
    }
    let image = CapturedImage::new(4, 4, rgba).unwrap();
    let mut doc = AnnotationDocument::new();
    doc.push(AnnotationShape::Mosaic {
        rect: Rect {
            x: 0,
            y: 0,
            width: 4,
            height: 4,
        },
        block_size: 4,
    });
    let rendered = doc.render(&image, &vec![ShapePlan::Plain]).unwrap();
    assert_ne!(rendered.rgba, image.rgba);
    assert_eq!(&rendered.rgba[0..4], &rendered.rgba[4..8]);
}

#[test]
fn empty_text_leaves_the_image_alone() {
    let mut image = CapturedImage::new(1, 1, vec![9, 9, 9, 9]).unwrap();
    let shape = AnnotationShape::Text { origin: Point { x: 0, y: 0 }, text: String::new(), color: Color::red(), font_size: 16 };
    assert!(shape.apply(&mut image, &ShapePlan::Rendered(vec![1, 2, 3, 4])).is_ok());
    assert_eq!(image.rgba, vec![9, 9, 9, 9]);
    assert!(shape.apply(&mut image, &ShapePlan::ArrowHead(None)).is_ok());
    assert_eq!(image.rgba, vec![9, 9, 9, 9]);
    let typed = AnnotationShape::Text { origin: Point { x: 0, y: 0 }, text: "a".to_string(), color: Color::red(), font_size: 16 };
    assert!(typed.apply(&mut image, &ShapePlan::Rendered(vec![1, 2, 3, 4])).is_ok());
    assert_eq!(image.rgba, vec![1, 2, 3, 4]);
}
