use crate::api::{CapturedImage, Rect};
use crate::error::{Result, WinScreenError};
use crate::raster::{
    draw_line, draw_number, draw_rect, draw_text_placeholder, line_spec, mosaic, mosaic_spec,
    number_spec, outline_spec, put_pixel, set_pixel, text_drawable, text_fold,
};
use crate::api::{rect_check_fits, rect_inside};
use vstd::prelude::*;

verus! {

/// The drawing tools of the annotation editor.
#[derive(Debug, Clone, Copy, PartialEq, Eq, Structural)]
pub enum AnnotationTool {
    Rectangle,
    Ellipse,
    Arrow,
    Line,
    Brush,
    Text,
    Mosaic,
    Number,
}

/// How the user left the annotation editor.
#[derive(Debug, Clone, Copy, PartialEq, Eq, Structural)]
pub enum AnnotationEditAction {
    Confirm,
    Pin,
}

/// The rendered image and the action that closed the editor.
#[derive(Debug, Clone)]
pub struct AnnotationEditResult {
    pub image: CapturedImage,
    pub action: AnnotationEditAction,
}

/// A point in image coordinates.
#[derive(Debug, Clone, Copy, PartialEq, Eq, Structural)]
pub struct Point {
    pub x: i32,
    pub y: i32,
}

/// An RGBA color; `a` is the opacity used when blending onto the image.
#[derive(Debug, Clone, Copy, PartialEq, Eq, Structural)]
pub struct Color {
    pub r: u8,
    pub g: u8,
    pub b: u8,
    pub a: u8,
}

impl Color {
    /// The editor's red stroke color.
    pub fn red() -> (c: Color)
        ensures
            c == (Color { r: 255, g: 64, b: 64, a: 255 }),
    {
        Color { r: 255, g: 64, b: 64, a: 255 }
    }

    /// The brush's yellow.
    pub fn yellow() -> (c: Color)
        ensures
            c == (Color { r: 255, g: 214, b: 64, a: 255 }),
    {
        Color { r: 255, g: 214, b: 64, a: 255 }
    }

    /// The near-black used when an average has no pixels.
    pub fn black() -> (c: Color)
        ensures
            c == (Color { r: 20, g: 20, b: 20, a: 255 }),
    {
        Color { r: 20, g: 20, b: 20, a: 255 }
    }

    /// Opaque white.
    pub fn white() -> (c: Color)
        ensures
            c == (Color { r: 255, g: 255, b: 255, a: 255 }),
    {
        Color { r: 255, g: 255, b: 255, a: 255 }
    }
}

/// One annotation drawn over a captured image.
#[derive(Debug, Clone)]
pub enum AnnotationShape {
    Rectangle { rect: Rect, stroke: Color, stroke_width: u32 },
    Ellipse { rect: Rect, stroke: Color, stroke_width: u32 },
    Arrow { start: Point, end: Point, stroke: Color, stroke_width: u32 },
    Line { start: Point, end: Point, stroke: Color, stroke_width: u32 },
    Brush { points: Vec<Point>, stroke: Color, stroke_width: u32 },
    Text { origin: Point, text: String, color: Color, font_size: u32 },
    Mosaic { rect: Rect, block_size: u32 },
    Number { center: Point, value: u32, fill: Color, text: Color },
}

/// What the parts of a shape that need floating point or the system font
/// engine came to; they are computed outside this library and handed in.
#[derive(Debug, Clone)]
pub enum ShapePlan {
    /// The shape is drawn from its own fields alone.
    Plain,
    /// The pixels of an ellipse ring, in the order they are painted.
    EllipseRing(Vec<Point>),
    /// The two wing tips of an arrow head; `None` for an arrow too short to
    /// have one.
    ArrowHead(Option<(Point, Point)>),
    /// The whole RGBA buffer after the system font engine drew a text.
    Rendered(Vec<u8>),
}

/// Paints `color` into the listed pixels from index `i` on.
pub open spec fn ring_fold(img: Seq<u8>, width: u32, height: u32, pts: Seq<Point>, i: int, color: Color) -> Seq<u8>
    decreases pts.len() - i,
{
    if i >= pts.len() || i < 0 {
        img
    } else {
        ring_fold(put_pixel(img, width, height, pts[i].x as int, pts[i].y as int, color), width, height, pts, i + 1, color)
    }
}

/// The segments between consecutive brush points from index `i` on.
pub open spec fn brush_fold(
    img: Seq<u8>,
    width: u32,
    height: u32,
    pts: Seq<Point>,
    i: int,
    color: Color,
    pen: u32,
) -> Seq<u8>
    decreases pts.len() - i,
{
    if i + 1 >= pts.len() || i < 0 {
        img
    } else {
        brush_fold(
            line_spec(img, width, height, pts[i].x as int, pts[i].y as int, pts[i + 1].x as int, pts[i + 1].y as int, color, pen),
            width,
            height,
            pts,
            i + 1,
            color,
            pen,
        )
    }
}

/// A shape can be drawn on a `width` x `height` image with this plan: the
/// plan is of the kind the shape needs, and none of the arithmetic the
/// drawing does leaves its range.
pub open spec fn shape_ready(shape: AnnotationShape, width: u32, height: u32, plan: ShapePlan, len: int) -> bool {
    match shape {
        AnnotationShape::Rectangle { rect, .. } => rect_check_fits(rect, width, height),
        AnnotationShape::Ellipse { rect, .. } => rect_check_fits(rect, width, height)
            && plan is EllipseRing,
        AnnotationShape::Arrow { .. } => plan is ArrowHead,
        AnnotationShape::Line { .. } => true,
        AnnotationShape::Brush { .. } => true,
        AnnotationShape::Text { text, .. } => text@.len() == 0 || match plan {
            ShapePlan::Rendered(bytes) => bytes@.len() == len,
            ShapePlan::Plain => text@.len() <= i32::MAX && text_drawable(width, height, text@),
            _ => false,
        },
        AnnotationShape::Mosaic { rect, block_size } => rect_check_fits(rect, width, height)
            && block_size <= i32::MAX,
        AnnotationShape::Number { .. } => width > 0 && height > 0,
    }
}

/// What drawing a shape does to the pixels, or the rectangle it refuses.
pub open spec fn shape_result(shape: AnnotationShape, img: Seq<u8>, width: u32, height: u32, plan: ShapePlan) -> core::result::Result<
    Seq<u8>,
    Rect,
> {
    match shape {
        AnnotationShape::Rectangle { rect, stroke, stroke_width } => if rect_inside(rect, width, height) {
            Ok(outline_spec(img, width, height, rect, stroke, stroke_width))
        } else {
            Err(rect)
        },
        AnnotationShape::Ellipse { rect, stroke, stroke_width } => if rect_inside(rect, width, height) {
            match plan {
                ShapePlan::EllipseRing(pts) => Ok(ring_fold(img, width, height, pts@, 0, stroke)),
                _ => Ok(img),
            }
        } else {
            Err(rect)
        },
        AnnotationShape::Arrow { start, end, stroke, stroke_width } => {
            let shaft = line_spec(img, width, height, start.x as int, start.y as int, end.x as int, end.y as int, stroke, stroke_width);
            match plan {
                ShapePlan::ArrowHead(Some((l, r))) => {
                    let one = line_spec(shaft, width, height, end.x as int, end.y as int, l.x as int, l.y as int, stroke, stroke_width);
                    Ok(line_spec(one, width, height, end.x as int, end.y as int, r.x as int, r.y as int, stroke, stroke_width))
                },
                _ => Ok(shaft),
            }
        },
        AnnotationShape::Line { start, end, stroke, stroke_width } => Ok(
            line_spec(img, width, height, start.x as int, start.y as int, end.x as int, end.y as int, stroke, stroke_width),
        ),
        AnnotationShape::Brush { points, stroke, stroke_width } => Ok(
            brush_fold(img, width, height, points@, 0, stroke, stroke_width),
        ),
        AnnotationShape::Text { origin, text, color, font_size } => if text@.len() == 0 {
            Ok(img)
        } else {
            match plan {
                ShapePlan::Rendered(bytes) => Ok(bytes@),
                _ => Ok(text_fold(img, width, height, text@, 0, origin.x as int, origin.y as int, font_size, color)),
            }
        },
        AnnotationShape::Mosaic { rect, block_size } => if rect_inside(rect, width, height) {
            Ok(mosaic_spec(img, width, height, rect, block_size))
        } else {
            Err(rect)
        },
        AnnotationShape::Number { center, value, fill, text } => Ok(
            number_spec(img, width, height, center, value, fill, text),
        ),
    }
}

/// Something that can be drawn onto a captured image.
pub trait Annotation {
    /// Whether `apply` may run with this plan on an image of this size.
    spec fn ready(&self, width: u32, height: u32, plan: ShapePlan, len: int) -> bool;

    /// The pixels after drawing, or the rectangle that was refused.
    spec fn result(&self, img: Seq<u8>, width: u32, height: u32, plan: ShapePlan) -> core::result::Result<
        Seq<u8>,
        Rect,
    >;

    /// Draws onto `image`; a refused shape leaves the image unchanged.
    fn apply(&self, image: &mut CapturedImage, plan: &ShapePlan) -> (r: Result<()>)
        requires
            old(image).wf(),
            self.ready(old(image).width, old(image).height, *plan, old(image).rgba@.len() as int),
        ensures
            final(image).wf(),
            final(image).width == old(image).width,
            final(image).height == old(image).height,
            match self.result(old(image).rgba@, old(image).width, old(image).height, *plan) {
                Ok(px) => r is Ok && final(image).rgba@ == px,
                Err(rect) => r == Err::<(), WinScreenError>(WinScreenError::InvalidRect(rect))
                    && final(image).rgba@ == old(image).rgba@,
            },
    ;
}

impl Annotation for AnnotationShape {
    open spec fn ready(&self, width: u32, height: u32, plan: ShapePlan, len: int) -> bool {
        shape_ready(*self, width, height, plan, len)
    }

    open spec fn result(&self, img: Seq<u8>, width: u32, height: u32, plan: ShapePlan) -> core::result::Result<
        Seq<u8>,
        Rect,
    > {
        shape_result(*self, img, width, height, plan)
    }

    fn apply(&self, image: &mut CapturedImage, plan: &ShapePlan) -> (r: Result<()>) {
        match self {
            AnnotationShape::Rectangle { rect, stroke, stroke_width } => draw_rect(image, *rect, *stroke, *stroke_width),
            AnnotationShape::Ellipse { rect, stroke, .. } => {
                crate::raster::validate_rect_for_image(image, *rect)?;
                if let ShapePlan::EllipseRing(pts) = plan {
                    paint_points(image, pts, *stroke);
                }
                Ok(())
            },
            AnnotationShape::Arrow { start, end, stroke, stroke_width } => {
                draw_line(image, *start, *end, *stroke, *stroke_width);
                if let ShapePlan::ArrowHead(Some((l, r))) = plan {
                    draw_line(image, *end, *l, *stroke, *stroke_width);
                    draw_line(image, *end, *r, *stroke, *stroke_width);
                }
                Ok(())
            },
            AnnotationShape::Line { start, end, stroke, stroke_width } => {
                draw_line(image, *start, *end, *stroke, *stroke_width);
                Ok(())
            },
            AnnotationShape::Brush { points, stroke, stroke_width } => {
                draw_brush(image, points, *stroke, *stroke_width);
                Ok(())
            },
            AnnotationShape::Text { origin, text, color, font_size } => {
                if text.as_str().is_empty() {
                    return Ok(());
                }
                match plan {
                    ShapePlan::Rendered(bytes) => {
                        image.rgba = bytes.clone();
                    },
                    _ => {
                        draw_text_placeholder(image, *origin, text.as_str(), *color, *font_size);
                    },
                }
                Ok(())
            },
            AnnotationShape::Mosaic { rect, block_size } => mosaic(image, *rect, *block_size),
            AnnotationShape::Number { center, value, fill, text } => {
                draw_number(image, *center, *value, *fill, *text);
                Ok(())
            },
        }
    }
}

/// Paints `color` into each listed pixel in turn.
fn paint_points(image: &mut CapturedImage, pts: &Vec<Point>, color: Color)
    requires
        old(image).wf(),
    ensures
        final(image).wf(),
        final(image).width == old(image).width,
        final(image).height == old(image).height,
        final(image).rgba@ == ring_fold(old(image).rgba@, old(image).width, old(image).height, pts@, 0, color),
{
    let ghost goal = ring_fold(image.rgba@, image.width, image.height, pts@, 0, color);
    let mut i: usize = 0;
    while i < pts.len()
        invariant
            image.wf(),
            image.width == old(image).width,
            image.height == old(image).height,
            i <= pts@.len(),
            ring_fold(image.rgba@, image.width, image.height, pts@, i as int, color) == goal,
        decreases pts@.len() - i,
    {
        set_pixel(image, pts[i].x as i64, pts[i].y as i64, color);
        i += 1;
    }
}

/// Joins consecutive brush points with lines.
fn draw_brush(image: &mut CapturedImage, pts: &Vec<Point>, color: Color, pen: u32)
    requires
        old(image).wf(),
    ensures
        final(image).wf(),
        final(image).width == old(image).width,
        final(image).height == old(image).height,
        final(image).rgba@ == brush_fold(old(image).rgba@, old(image).width, old(image).height, pts@, 0, color, pen),
{
    let ghost goal = brush_fold(image.rgba@, image.width, image.height, pts@, 0, color, pen);
    let n = pts.len();
    if n < 2 {
        return ;
    }
    let mut i: usize = 0;
    while i < n - 1
        invariant
            n == pts@.len(),
            n >= 2,
            image.wf(),
            image.width == old(image).width,
            image.height == old(image).height,
            i <= pts@.len(),
            brush_fold(image.rgba@, image.width, image.height, pts@, i as int, color, pen) == goal,
        decreases pts@.len() - i,
    {
        draw_line(image, pts[i], pts[i + 1], color, pen);
        i += 1;
    }
}

/// The shapes drawn so far and the shapes undone since the last push; the
/// last element of each is the most recent.
pub struct DocView {
    pub shapes: Seq<AnnotationShape>,
    pub undone: Seq<AnnotationShape>,
}

/// A new shape is appended and the redo history is dropped.
pub open spec fn push_spec(d: DocView, shape: AnnotationShape) -> DocView {
    DocView { shapes: d.shapes.push(shape), undone: Seq::empty() }
}

/// Undo moves the last shape onto the redo stack; it reports whether there
/// was one.
pub open spec fn undo_spec(d: DocView) -> (bool, DocView) {
    if d.shapes.len() == 0 {
        (false, d)
    } else {
        (
            true,
            DocView { shapes: d.shapes.drop_last(), undone: d.undone.push(d.shapes.last()) },
        )
    }
}

/// Redo moves the last undone shape back; it reports whether there was one.
pub open spec fn redo_spec(d: DocView) -> (bool, DocView) {
    if d.undone.len() == 0 {
        (false, d)
    } else {
        (
            true,
            DocView { shapes: d.shapes.push(d.undone.last()), undone: d.undone.drop_last() },
        )
    }
}

/// An annotation document with an undo/redo history.
#[derive(Debug, Clone)]
pub struct AnnotationDocument {
    shapes: Vec<AnnotationShape>,
    undone: Vec<AnnotationShape>,
}

impl View for AnnotationDocument {
    type V = DocView;

    closed spec fn view(&self) -> DocView {
        DocView { shapes: self.shapes@, undone: self.undone@ }
    }
}

impl AnnotationDocument {
    /// An empty document with no history.
    pub fn new() -> (d: Self)
        ensures
            d@ == (DocView { shapes: Seq::empty(), undone: Seq::empty() }),
    {
        AnnotationDocument { shapes: Vec::new(), undone: Vec::new() }
    }

    /// The shapes drawn so far, oldest first.
    pub fn shapes(&self) -> (s: &[AnnotationShape])
        ensures
            s@ == self@.shapes,
    {
        self.shapes.as_slice()
    }

    /// Whether no shape is drawn.
    pub fn is_empty(&self) -> (b: bool)
        ensures
            b == (self@.shapes.len() == 0),
    {
        self.shapes.len() == 0
    }

    /// Draws a new shape; this clears the redo history.
    pub fn push(&mut self, shape: AnnotationShape)
        ensures
            final(self)@ == push_spec(old(self)@, shape),
    {
        self.shapes.push(shape);
        self.undone.clear();
    }

    /// Takes back the last shape; `false` when there is none.
    pub fn undo(&mut self) -> (r: bool)
        ensures
            (r, final(self)@) == undo_spec(old(self)@),
    {
        match self.shapes.pop() {
            Some(shape) => {
                self.undone.push(shape);
                true
            },
            None => false,
        }
    }

    /// Restores the last undone shape; `false` when there is none.
    pub fn redo(&mut self) -> (r: bool)
        ensures
            (r, final(self)@) == redo_spec(old(self)@),
    {
        match self.undone.pop() {
            Some(shape) => {
                self.shapes.push(shape);
                true
            },
            None => false,
        }
    }
}

/// Whether shape `shape` refuses to draw on a `width` x `height` image.
pub open spec fn shape_refuses(shape: AnnotationShape, width: u32, height: u32) -> bool {
    match shape {
        AnnotationShape::Rectangle { rect, .. } => !rect_inside(rect, width, height),
        AnnotationShape::Ellipse { rect, .. } => !rect_inside(rect, width, height),
        AnnotationShape::Mosaic { rect, .. } => !rect_inside(rect, width, height),
        _ => false,
    }
}

/// Every shape from index `i` that rendering reaches can be drawn with its
/// plan: rendering stops at the first refused shape.
pub open spec fn render_ready(
    width: u32,
    height: u32,
    len: int,
    shapes: Seq<AnnotationShape>,
    plans: Seq<ShapePlan>,
    i: int,
) -> bool
    decreases shapes.len() - i,
{
    if i >= shapes.len() || i < 0 {
        true
    } else {
        shape_ready(shapes[i], width, height, plans[i], len) && (shape_refuses(shapes[i], width, height)
            || render_ready(width, height, len, shapes, plans, i + 1))
    }
}

/// The shapes from index `i` drawn in order onto `img`; the first refused
/// rectangle ends the rendering.
pub open spec fn render_spec(
    img: Seq<u8>,
    width: u32,
    height: u32,
    shapes: Seq<AnnotationShape>,
    plans: Seq<ShapePlan>,
    i: int,
) -> core::result::Result<Seq<u8>, Rect>
    decreases shapes.len() - i,
{
    if i >= shapes.len() || i < 0 {
        Ok(img)
    } else {
        match shape_result(shapes[i], img, width, height, plans[i]) {
            Ok(px) => render_spec(px, width, height, shapes, plans, i + 1),
            Err(rect) => Err(rect),
        }
    }
}

impl AnnotationDocument {
    /// Draws every shape, oldest first, onto a copy of `image`; `plans[i]`
    /// carries what shape `i` needs from outside.
    pub fn render(&self, image: &CapturedImage, plans: &Vec<ShapePlan>) -> (r: Result<CapturedImage>)
        requires
            image.wf(),
            plans@.len() == self@.shapes.len(),
            render_ready(image.width, image.height, image.rgba@.len() as int, self@.shapes, plans@, 0),
        ensures
            match render_spec(image.rgba@, image.width, image.height, self@.shapes, plans@, 0) {
                Ok(px) => r matches Ok(out) && out.width == image.width && out.height == image.height
                    && out.rgba@ == px && out.wf(),
                Err(rect) => r == Err::<CapturedImage, WinScreenError>(WinScreenError::InvalidRect(rect)),
            },
    {
        let mut output = CapturedImage { width: image.width, height: image.height, rgba: image.rgba.clone() };
        assert(output.rgba@ =~= image.rgba@);
        let ghost goal = render_spec(image.rgba@, image.width, image.height, self@.shapes, plans@, 0);
        let mut i: usize = 0;
        while i < self.shapes.len()
            invariant
                output.wf(),
                output.width == image.width,
                output.height == image.height,
                output.rgba@.len() == image.rgba@.len(),
                plans@.len() == self@.shapes.len(),
                self@.shapes == self.shapes@,
                i <= self.shapes@.len(),
                render_ready(image.width, image.height, image.rgba@.len() as int, self@.shapes, plans@, i as int),
                render_spec(output.rgba@, image.width, image.height, self@.shapes, plans@, i as int) == goal,
                goal == render_spec(image.rgba@, image.width, image.height, self@.shapes, plans@, 0),
            decreases self.shapes@.len() - i,
        {
            let shape = &self.shapes[i];
            proof {
                lemma_refuses_iff_err(*shape, output.rgba@, image.width, image.height, plans@[i as int]);
            }
            match shape.apply(&mut output, &plans[i]) {
                Ok(()) => {},
                Err(e) => return Err(e),
            }
            i += 1;
        }
        Ok(output)
    }
}

proof fn lemma_refuses_iff_err(shape: AnnotationShape, img: Seq<u8>, width: u32, height: u32, plan: ShapePlan)
    ensures
        shape_refuses(shape, width, height) <==> shape_result(shape, img, width, height, plan) is Err,
{
}

/// The rectangle spanned by two corner points; `None` when a side is under
/// two pixels.
pub open spec fn normalize_spec(start: Point, end: Point) -> Option<Rect> {
    let left = if start.x < end.x { start.x as int } else { end.x as int };
    let top = if start.y < end.y { start.y as int } else { end.y as int };
    let right = if start.x < end.x { end.x as int } else { start.x as int };
    let bottom = if start.y < end.y { end.y as int } else { start.y as int };
    if right - left < 2 || bottom - top < 2 {
        None
    } else {
        Some(Rect { x: left as i32, y: top as i32, width: (right - left) as u32, height: (bottom - top) as u32 })
    }
}

/// The rectangle spanned by two corner points, or `None` when it is thinner
/// than two pixels; its size is computed exactly.
pub fn normalize_rect(start: Point, end: Point) -> (r: Option<Rect>)
    ensures
        r == normalize_spec(start, end),
{
    let left = if start.x < end.x { start.x } else { end.x };
    let top = if start.y < end.y { start.y } else { end.y };
    let right = if start.x < end.x { end.x } else { start.x };
    let bottom = if start.y < end.y { end.y } else { start.y };
    let width = right as i64 - left as i64;
    let height = bottom as i64 - top as i64;
    if width < 2 || height < 2 {
        return None;
    }
    Some(Rect { x: left, y: top, width: width as u32, height: height as u32 })
}

/// Undoing a push gives back the shapes drawn before it.
pub proof fn lemma_undo_after_push(d: DocView, shape: AnnotationShape)
    ensures
        undo_spec(push_spec(d, shape)).0,
        undo_spec(push_spec(d, shape)).1.shapes == d.shapes,
        undo_spec(push_spec(d, shape)).1.undone == seq![shape],
{
    assert(d.shapes.push(shape).drop_last() =~= d.shapes);
    assert(Seq::<AnnotationShape>::empty().push(shape) =~= seq![shape]);
}

/// A successful undo followed by redo restores the document exactly.
pub proof fn lemma_undo_redo_round_trip(d: DocView)
    requires
        d.shapes.len() > 0,
    ensures
        undo_spec(d).0,
        redo_spec(undo_spec(d).1) == (true, d),
{
    assert(d.shapes.drop_last().push(d.shapes.last()) =~= d.shapes);
    assert(d.undone.push(d.shapes.last()).drop_last() =~= d.undone);
}

/// A successful redo followed by undo restores the document exactly.
pub proof fn lemma_redo_undo_round_trip(d: DocView)
    requires
        d.undone.len() > 0,
    ensures
        redo_spec(d).0,
        undo_spec(redo_spec(d).1) == (true, d),
{
    assert(d.undone.drop_last().push(d.undone.last()) =~= d.undone);
    assert(d.shapes.push(d.undone.last()).drop_last() =~= d.shapes);
}

/// After a push nothing can be redone.
pub proof fn lemma_push_clears_redo(d: DocView, shape: AnnotationShape)
    ensures
        redo_spec(push_spec(d, shape)) == (false, push_spec(d, shape)),
{
}

/// Undo and redo never change how many shapes the document knows of.
pub proof fn lemma_history_conserves_shapes(d: DocView)
    ensures
        undo_spec(d).1.shapes.len() + undo_spec(d).1.undone.len() == d.shapes.len()
            + d.undone.len(),
        redo_spec(d).1.shapes.len() + redo_spec(d).1.undone.len() == d.shapes.len()
            + d.undone.len(),
{
}

} // verus!
