//! The annotation editor's decisions: which tool is active, what a mouse or
//! key event does to the document, and when the editor closes. The window,
//! its painting and the cursor-to-image mapping live outside this library.
use crate::annotate::{
    normalize_rect, normalize_spec, push_spec, redo_spec, undo_spec, AnnotationDocument,
    AnnotationEditAction, AnnotationEditResult, AnnotationShape, AnnotationTool, Color, DocView,
    Point, ShapePlan, render_ready, render_spec, shape_ready, shape_refuses,
};
use crate::api::{rect_check_fits, rect_inside, CapturedImage, Rect};
use crate::raster::{is_whitespace, is_whitespace_spec};
use vstd::prelude::*;
use vstd::string::StrSliceExecFns;

verus! {

/// Height of the toolbar strip above the image, in window pixels.
pub const TOOLBAR_HEIGHT: i32 = 42;

/// Virtual-key codes the editor reacts to.
pub const KEY_ESCAPE: usize = 0x1b;
pub const KEY_RETURN: usize = 0x0d;

/// An input event, already mapped to image coordinates.
#[derive(Debug, Clone, Copy, PartialEq, Eq, Structural)]
pub enum EditorEvent {
    /// Left button pressed; `toolbar` holds the button index when the press
    /// landed on the (ready) toolbar.
    LeftDown { point: Point, toolbar: Option<i32> },
    MouseMove { point: Point },
    LeftUp { point: Point },
    /// A typed character.
    Char { ch: char },
    /// A key press: its virtual-key code and whether Ctrl is held.
    KeyDown { key: usize, ctrl: bool },
    RightDown,
}

/// What the window has to do after an event.
#[derive(Debug, Clone, Copy, PartialEq, Eq, Structural)]
pub enum EditorAction {
    /// Nothing to do.
    Nothing,
    /// Repaint.
    Redraw,
    /// Capture the mouse and repaint.
    CaptureMouse,
    /// Release the mouse and repaint.
    ReleaseMouse,
    /// Close the editor with the annotated image.
    Finish(AnnotationEditAction),
    /// Close the editor without a result.
    Cancel,
    /// The event is not the editor's; hand it to the default handler.
    PassThrough,
}

/// The editor's state apart from the window.
pub struct EditorState {
    pub doc: AnnotationDocument,
    pub tool: AnnotationTool,
    pub drawing_start: Option<Point>,
    pub current: Point,
    pub brush_points: Vec<Point>,
    pub text_origin: Option<Point>,
    pub text_buffer: String,
    pub number: u32,
}

/// The editor's state as values.
pub struct EditorView {
    pub doc: DocView,
    pub tool: AnnotationTool,
    pub drawing_start: Option<Point>,
    pub current: Point,
    pub brush_points: Seq<Point>,
    pub text_origin: Option<Point>,
    pub text_buffer: Seq<char>,
    pub number: u32,
}

impl View for EditorState {
    type V = EditorView;

    open spec fn view(&self) -> EditorView {
        EditorView {
            doc: self.doc@,
            tool: self.tool,
            drawing_start: self.drawing_start,
            current: self.current,
            brush_points: self.brush_points@,
            text_origin: self.text_origin,
            text_buffer: self.text_buffer@,
            number: self.number,
        }
    }
}

/// The tool bound to a digit key `1`..`8`, in toolbar order.
pub open spec fn tool_for_index(i: int) -> Option<AnnotationTool> {
    if i == 0 {
        Some(AnnotationTool::Rectangle)
    } else if i == 1 {
        Some(AnnotationTool::Ellipse)
    } else if i == 2 {
        Some(AnnotationTool::Arrow)
    } else if i == 3 {
        Some(AnnotationTool::Line)
    } else if i == 4 {
        Some(AnnotationTool::Brush)
    } else if i == 5 {
        Some(AnnotationTool::Text)
    } else if i == 6 {
        Some(AnnotationTool::Mosaic)
    } else if i == 7 {
        Some(AnnotationTool::Number)
    } else {
        None
    }
}

/// Whether the drag from `v.drawing_start` to `v.current` yields a shape.
pub open spec fn has_preview(v: EditorView) -> bool {
    match v.drawing_start {
        None => false,
        Some(start) => match v.tool {
            AnnotationTool::Rectangle | AnnotationTool::Ellipse | AnnotationTool::Mosaic =>
                normalize_spec(start, v.current) is Some,
            AnnotationTool::Arrow | AnnotationTool::Line | AnnotationTool::Brush => true,
            _ => false,
        },
    }
}

/// `shape` is the shape the current drag draws: red outlines three pixels
/// wide, a yellow four-pixel brush, or a mosaic with 12-pixel blocks.
pub open spec fn is_preview(v: EditorView, shape: AnnotationShape) -> bool {
    match v.drawing_start {
        None => false,
        Some(start) => match v.tool {
            AnnotationTool::Rectangle => normalize_spec(start, v.current) matches Some(rect)
                && shape == (AnnotationShape::Rectangle { rect, stroke: red(), stroke_width: 3 }),
            AnnotationTool::Ellipse => normalize_spec(start, v.current) matches Some(rect)
                && shape == (AnnotationShape::Ellipse { rect, stroke: red(), stroke_width: 3 }),
            AnnotationTool::Arrow => shape == (AnnotationShape::Arrow {
                start,
                end: v.current,
                stroke: red(),
                stroke_width: 3,
            }),
            AnnotationTool::Line => shape == (AnnotationShape::Line {
                start,
                end: v.current,
                stroke: red(),
                stroke_width: 3,
            }),
            AnnotationTool::Brush => shape matches AnnotationShape::Brush { points, stroke, stroke_width }
                && points@ == v.brush_points && stroke == yellow() && stroke_width == 4,
            AnnotationTool::Mosaic => normalize_spec(start, v.current) matches Some(rect)
                && shape == (AnnotationShape::Mosaic { rect, block_size: 12 }),
            _ => false,
        },
    }
}

pub open spec fn red() -> Color {
    Color { r: 255, g: 64, b: 64, a: 255 }
}

pub open spec fn yellow() -> Color {
    Color { r: 255, g: 214, b: 64, a: 255 }
}

pub open spec fn white() -> Color {
    Color { r: 255, g: 255, b: 255, a: 255 }
}

/// `text` holds at least one non-whitespace character.
pub open spec fn has_visible(text: Seq<char>) -> bool {
    exists|i: int| 0 <= i < text.len() && !is_whitespace_spec(#[trigger] text[i])
}

/// Committing the pending text: a red 22-point text shape when it has a
/// visible character; the buffer empties and text entry ends either way.
pub open spec fn commit_next(old: EditorView, new: EditorView) -> bool {
    &&& new.tool == old.tool
    &&& new.drawing_start == old.drawing_start
    &&& new.current == old.current
    &&& new.brush_points == old.brush_points
    &&& new.number == old.number
    &&& new.text_origin is None
    &&& new.text_buffer == Seq::<char>::empty()
    &&& match old.text_origin {
        Some(origin) => if has_visible(old.text_buffer) {
            new.doc.undone == Seq::<AnnotationShape>::empty() && new.doc.shapes.len()
                == old.doc.shapes.len() + 1 && new.doc.shapes.drop_last() == old.doc.shapes && (
            new.doc.shapes.last() matches AnnotationShape::Text { origin: o, text, color, font_size }
                && o == origin && text@ == old.text_buffer && color == red() && font_size == 22)
        } else {
            new.doc == old.doc
        },
        None => new.doc == old.doc,
    }
}

/// Whether a Unicode scalar is a control character (category Cc).
pub open spec fn is_control_spec(c: char) -> bool {
    let v = c as u32;
    v <= 0x1f || (0x7f <= v && v <= 0x9f)
}

/// The state unchanged except for the fields a case names.
pub open spec fn same_but_tool(old: EditorView, new: EditorView) -> bool {
    &&& new.doc == old.doc
    &&& new.drawing_start == old.drawing_start
    &&& new.current == old.current
    &&& new.brush_points == old.brush_points
    &&& new.text_origin == old.text_origin
    &&& new.text_buffer == old.text_buffer
    &&& new.number == old.number
}

/// What each event does to the editor state and which action it asks for.
pub open spec fn editor_next(old: EditorView, e: EditorEvent, new: EditorView, act: EditorAction) -> bool {
    match e {
        EditorEvent::LeftDown { point, toolbar: Some(idx) } => {
            if 0 <= idx < 8 {
                act == EditorAction::Redraw && same_but_tool(old, new) && Some(new.tool)
                    == tool_for_index(idx as int)
            } else {
                new == old && act == (if idx == 8 {
                    EditorAction::Finish(AnnotationEditAction::Confirm)
                } else if idx == 9 {
                    EditorAction::Finish(AnnotationEditAction::Pin)
                } else if idx == 10 {
                    EditorAction::Cancel
                } else {
                    EditorAction::Redraw
                })
            }
        },
        EditorEvent::LeftDown { point, toolbar: None } => match old.tool {
            AnnotationTool::Text => act == EditorAction::Redraw && new == (EditorView {
                text_origin: Some(point),
                text_buffer: Seq::empty(),
                ..old
            }),
            AnnotationTool::Number => act == EditorAction::Redraw && new.number == old.number + 1
                && new.doc.shapes.len() == old.doc.shapes.len() + 1 && new.doc == push_spec(
                old.doc,
                new.doc.shapes.last(),
            ) && new.doc.shapes.last() == (AnnotationShape::Number {
                center: point,
                value: old.number,
                fill: red(),
                text: white(),
            }) && new == (EditorView { doc: new.doc, number: new.number, ..old }),
            _ => act == EditorAction::CaptureMouse && new == (EditorView {
                drawing_start: Some(point),
                current: point,
                brush_points: seq![point],
                ..old
            }),
        },
        EditorEvent::MouseMove { point } => if old.drawing_start is Some {
            act == EditorAction::Redraw && new == (EditorView {
                current: point,
                brush_points: if old.tool == AnnotationTool::Brush {
                    old.brush_points.push(point)
                } else {
                    old.brush_points
                },
                ..old
            })
        } else {
            act == EditorAction::Nothing && new == old
        },
        EditorEvent::LeftUp { point } => {
            let moved = EditorView { current: point, ..old };
            &&& act == EditorAction::ReleaseMouse
            &&& new.drawing_start is None
            &&& new.brush_points == Seq::<Point>::empty()
            &&& new.current == point
            &&& new.tool == old.tool
            &&& new.text_origin == old.text_origin
            &&& new.text_buffer == old.text_buffer
            &&& new.number == old.number
            &&& if has_preview(moved) {
                new.doc.shapes.len() == old.doc.shapes.len() + 1 && new.doc == push_spec(
                    old.doc,
                    new.doc.shapes.last(),
                ) && is_preview(moved, new.doc.shapes.last())
            } else {
                new.doc == old.doc
            }
        },
        EditorEvent::Char { ch } => if old.text_origin is Some {
            act == EditorAction::Redraw && if ch == '\r' {
                commit_next(old, new)
            } else if ch == '\u{1b}' {
                new == (EditorView { text_origin: None, text_buffer: Seq::empty(), ..old })
            } else if ch == '\u{8}' {
                new == (EditorView {
                    text_buffer: if old.text_buffer.len() > 0 {
                        old.text_buffer.drop_last()
                    } else {
                        old.text_buffer
                    },
                    ..old
                })
            } else if !is_control_spec(ch) {
                new == (EditorView { text_buffer: old.text_buffer.push(ch), ..old })
            } else {
                new == old
            }
        } else {
            act == EditorAction::PassThrough && new == old
        },
        EditorEvent::KeyDown { key, ctrl } => {
            if 0x31 <= key <= 0x38 {
                act == EditorAction::Redraw && same_but_tool(old, new) && Some(new.tool)
                    == tool_for_index(key - 0x31)
            } else if key == 0x5a && ctrl {
                act == EditorAction::Redraw && new == (EditorView { doc: undo_spec(old.doc).1, ..old })
            } else if key == 0x59 && ctrl {
                act == EditorAction::Redraw && new == (EditorView { doc: redo_spec(old.doc).1, ..old })
            } else if key == KEY_ESCAPE {
                act == EditorAction::Cancel && new == old
            } else if key == KEY_RETURN {
                if old.text_origin is Some {
                    act == EditorAction::Redraw && commit_next(old, new)
                } else {
                    act == EditorAction::Finish(AnnotationEditAction::Confirm) && new == old
                }
            } else {
                act == EditorAction::Redraw && new == old
            }
        },
        EditorEvent::RightDown => act == EditorAction::Cancel && new == old,
    }
}

/// The event can be handled without the badge counter overflowing.
pub open spec fn event_fits(v: EditorView, e: EditorEvent) -> bool {
    (e matches EditorEvent::LeftDown { toolbar: None, .. } && v.tool == AnnotationTool::Number)
        ==> v.number < u32::MAX
}

/// `String::push`: the character is appended to the string.
#[verifier::external_body]
pub(crate) fn push_char(s: &mut String, c: char)
    ensures
        final(s)@ == old(s)@.push(c),
{
    s.push(c);
}

/// `String::pop`: the last character, if there is one, is removed (the
/// removed character is not used).
#[verifier::external_body]
fn pop_char(s: &mut String)
    ensures
        final(s)@ == (if old(s)@.len() > 0 {
            old(s)@.drop_last()
        } else {
            old(s)@
        }),
{
    s.pop();
}

/// Whether `text` holds a character other than whitespace.
pub fn has_visible_text(text: &str) -> (b: bool)
    ensures
        b == has_visible(text@),
{
    let n = text.unicode_len();
    let mut i: usize = 0;
    while i < n
        invariant
            n == text@.len(),
            i <= n,
            forall|j: int| 0 <= j < i ==> is_whitespace_spec(#[trigger] text@[j]),
        decreases n - i,
    {
        if !is_whitespace(text.get_char(i)) {
            return true;
        }
        i += 1;
    }
    false
}

fn tool_at(i: i32) -> (t: AnnotationTool)
    requires
        0 <= i < 8,
    ensures
        Some(t) == tool_for_index(i as int),
{
    if i == 0 {
        AnnotationTool::Rectangle
    } else if i == 1 {
        AnnotationTool::Ellipse
    } else if i == 2 {
        AnnotationTool::Arrow
    } else if i == 3 {
        AnnotationTool::Line
    } else if i == 4 {
        AnnotationTool::Brush
    } else if i == 5 {
        AnnotationTool::Text
    } else if i == 6 {
        AnnotationTool::Mosaic
    } else {
        AnnotationTool::Number
    }
}

impl EditorState {
    /// The state a new editor opens in: rectangle tool, badge number 1.
    pub fn new() -> (s: Self)
        ensures
            s@.doc == (DocView { shapes: Seq::empty(), undone: Seq::empty() }),
            s@.tool == AnnotationTool::Rectangle,
            s@.drawing_start is None,
            s@.current == (Point { x: 0, y: 0 }),
            s@.brush_points == Seq::<Point>::empty(),
            s@.text_origin is None,
            s@.text_buffer == Seq::<char>::empty(),
            s@.number == 1,
    {
        EditorState {
            doc: AnnotationDocument::new(),
            tool: AnnotationTool::Rectangle,
            drawing_start: None,
            current: Point { x: 0, y: 0 },
            brush_points: Vec::new(),
            text_origin: None,
            text_buffer: String::new(),
            number: 1,
        }
    }

    /// The shape the current drag would draw, if any.
    pub fn preview_shape(&self) -> (r: Option<AnnotationShape>)
        ensures
            r is Some <==> has_preview(self@),
            r matches Some(shape) ==> is_preview(self@, shape),
    {
        let start = match self.drawing_start {
            Some(p) => p,
            None => return None,
        };
        match self.tool {
            AnnotationTool::Rectangle => match normalize_rect(start, self.current) {
                Some(rect) => Some(AnnotationShape::Rectangle { rect, stroke: Color::red(), stroke_width: 3 }),
                None => None,
            },
            AnnotationTool::Ellipse => match normalize_rect(start, self.current) {
                Some(rect) => Some(AnnotationShape::Ellipse { rect, stroke: Color::red(), stroke_width: 3 }),
                None => None,
            },
            AnnotationTool::Arrow => Some(
                AnnotationShape::Arrow { start, end: self.current, stroke: Color::red(), stroke_width: 3 },
            ),
            AnnotationTool::Line => Some(
                AnnotationShape::Line { start, end: self.current, stroke: Color::red(), stroke_width: 3 },
            ),
            AnnotationTool::Brush => {
                let points = self.brush_points.clone();
                proof {
                    assert(points@ =~= self.brush_points@);
                }
                Some(AnnotationShape::Brush { points, stroke: Color::yellow(), stroke_width: 4 })
            },
            AnnotationTool::Mosaic => match normalize_rect(start, self.current) {
                Some(rect) => Some(AnnotationShape::Mosaic { rect, block_size: 12 }),
                None => None,
            },
            AnnotationTool::Text | AnnotationTool::Number => None,
        }
    }

    /// Ends text entry, keeping the text as a shape when it shows anything.
    pub fn commit_text(&mut self)
        ensures
            commit_next(old(self)@, final(self)@),
    {
        let origin = match self.text_origin {
            Some(o) => o,
            None => {
                self.text_buffer = String::new();
                return ;
            },
        };
        self.text_origin = None;
        if has_visible_text(self.text_buffer.as_str()) {
            let text = self.text_buffer.clone();
            let ghost before = self.doc@;
            self.doc.push(AnnotationShape::Text { origin, text, color: Color::red(), font_size: 22 });
            assert(self.doc@.shapes.drop_last() =~= before.shapes);
        }
        self.text_buffer = String::new();
    }

    /// Applies one event and tells the window what to do.
    pub fn handle(&mut self, event: EditorEvent) -> (act: EditorAction)
        requires
            event_fits(old(self)@, event),
        ensures
            editor_next(old(self)@, event, final(self)@, act),
    {
        match event {
            EditorEvent::LeftDown { point, toolbar } => {
                if let Some(idx) = toolbar {
                    if 0 <= idx && idx < 8 {
                        self.tool = tool_at(idx);
                        return EditorAction::Redraw;
                    } else if idx == 8 {
                        return EditorAction::Finish(AnnotationEditAction::Confirm);
                    } else if idx == 9 {
                        return EditorAction::Finish(AnnotationEditAction::Pin);
                    } else if idx == 10 {
                        return EditorAction::Cancel;
                    }
                    return EditorAction::Redraw;
                }
                match self.tool {
                    AnnotationTool::Text => {
                        self.text_origin = Some(point);
                        self.text_buffer = String::new();
                        EditorAction::Redraw
                    },
                    AnnotationTool::Number => {
                        self.doc.push(
                            AnnotationShape::Number {
                                center: point,
                                value: self.number,
                                fill: Color::red(),
                                text: Color::white(),
                            },
                        );
                        self.number = self.number + 1;
                        EditorAction::Redraw
                    },
                    _ => {
                        self.drawing_start = Some(point);
                        self.current = point;
                        self.brush_points = Vec::new();
                        self.brush_points.push(point);
                        proof {
                            assert(self.brush_points@ =~= seq![point]);
                        }
                        EditorAction::CaptureMouse
                    },
                }
            },
            EditorEvent::MouseMove { point } => {
                if self.drawing_start.is_some() {
                    self.current = point;
                    if self.tool == AnnotationTool::Brush {
                        self.brush_points.push(point);
                    }
                    EditorAction::Redraw
                } else {
                    EditorAction::Nothing
                }
            },
            EditorEvent::LeftUp { point } => {
                self.current = point;
                if let Some(shape) = self.preview_shape() {
                    self.doc.push(shape);
                }
                self.drawing_start = None;
                self.brush_points = Vec::new();
                EditorAction::ReleaseMouse
            },
            EditorEvent::Char { ch } => {
                if self.text_origin.is_none() {
                    return EditorAction::PassThrough;
                }
                if ch == '\r' {
                    self.commit_text();
                } else if ch == '\u{1b}' {
                    self.text_origin = None;
                    self.text_buffer = String::new();
                } else if ch == '\u{8}' {
                    pop_char(&mut self.text_buffer);
                } else if !is_control(ch) {
                    push_char(&mut self.text_buffer, ch);
                }
                EditorAction::Redraw
            },
            EditorEvent::KeyDown { key, ctrl } => {
                if 0x31 <= key && key <= 0x38 {
                    self.tool = tool_at((key - 0x31) as i32);
                } else if key == 0x5a && ctrl {
                    self.doc.undo();
                } else if key == 0x59 && ctrl {
                    self.doc.redo();
                } else if key == KEY_ESCAPE {
                    return EditorAction::Cancel;
                } else if key == KEY_RETURN {
                    if self.text_origin.is_some() {
                        self.commit_text();
                    } else {
                        return EditorAction::Finish(AnnotationEditAction::Confirm);
                    }
                }
                EditorAction::Redraw
            },
            EditorEvent::RightDown => EditorAction::Cancel,
        }
    }
}

/// Whether a character is a control character.
pub fn is_control(c: char) -> (b: bool)
    ensures
        b == is_control_spec(c),
{
    let v = c as u32;
    v <= 0x1f || (0x7f <= v && v <= 0x9f)
}


/// The image with every shape drawn, paired with the closing action; `None`
/// when a shape is refused (the editor then closes without a result).
pub fn finish_edit(
    doc: &AnnotationDocument,
    image: &CapturedImage,
    plans: &Vec<ShapePlan>,
    action: AnnotationEditAction,
) -> (r: Option<AnnotationEditResult>)
    requires
        image.wf(),
        plans@.len() == doc@.shapes.len(),
        render_ready(image.width, image.height, image.rgba@.len() as int, doc@.shapes, plans@, 0),
    ensures
        match render_spec(image.rgba@, image.width, image.height, doc@.shapes, plans@, 0) {
            Ok(px) => r matches Some(res) && res.action == action && res.image.width == image.width
                && res.image.height == image.height && res.image.rgba@ == px,
            Err(_) => r is None,
        },
{
    match doc.render(image, plans) {
        Ok(out) => Some(AnnotationEditResult { image: out, action }),
        Err(_) => None,
    }
}

/// `u32 as i32` as Rust computes it (two's complement wrap).
pub open spec fn wrap_i32(v: u32) -> int {
    if v > i32::MAX {
        v - 0x1_0000_0000
    } else {
        v as int
    }
}

/// Where the editor window opens: 80 pixels in from the virtual screen's
/// corner without an anchor; otherwise level with the anchor's left edge,
/// just above it when the toolbar fits there and below it otherwise,
/// clamped to the virtual screen.
pub open spec fn editor_position_spec(anchor: Option<Rect>, vr: Rect, ww: int, wh: int) -> (int, int) {
    match anchor {
        None => (vr.x + 80, vr.y + 80),
        Some(a) => {
            let min_x = vr.x as int;
            let min_y = vr.y as int;
            let max_x = vr.x + wrap_i32(vr.width) - ww;
            let max_y = vr.y + wrap_i32(vr.height) - wh;
            let x = clamp(a.x as int, min_x, if max_x > min_x { max_x } else { min_x });
            let above = a.y - 42;
            let below = a.y + wrap_i32(a.height);
            let y = clamp(if above >= min_y { above } else { below }, min_y, if max_y > min_y { max_y } else { min_y });
            (x, y)
        },
    }
}

pub open spec fn clamp(v: int, lo: int, hi: int) -> int {
    if v < lo {
        lo
    } else if v > hi {
        hi
    } else {
        v
    }
}

/// The editor's top-left corner on screen; the arithmetic is exact.
pub fn editor_position(anchor: Option<Rect>, virtual_rect: Rect, window_width: i32, window_height: i32) -> (r: (i64, i64))
    requires
        anchor is None ==> virtual_rect.x + 80 <= i32::MAX && virtual_rect.y + 80 <= i32::MAX,
    ensures
        (r.0 as int, r.1 as int) == editor_position_spec(anchor, virtual_rect, window_width as int, window_height as int),
{
    let a = match anchor {
        None => return (virtual_rect.x as i64 + 80, virtual_rect.y as i64 + 80),
        Some(a) => a,
    };
    let min_x = virtual_rect.x as i64;
    let min_y = virtual_rect.y as i64;
    let vw: i64 = if virtual_rect.width > 2147483647u32 {
        virtual_rect.width as i64 - 0x1_0000_0000
    } else {
        virtual_rect.width as i64
    };
    let vh: i64 = if virtual_rect.height > 2147483647u32 {
        virtual_rect.height as i64 - 0x1_0000_0000
    } else {
        virtual_rect.height as i64
    };
    let ah: i64 = if a.height > 2147483647u32 {
        a.height as i64 - 0x1_0000_0000
    } else {
        a.height as i64
    };
    let max_x = min_x + vw - window_width as i64;
    let max_y = min_y + vh - window_height as i64;
    let hi_x = if max_x > min_x { max_x } else { min_x };
    let hi_y = if max_y > min_y { max_y } else { min_y };
    let ax = a.x as i64;
    let x = if ax < min_x { min_x } else if ax > hi_x { hi_x } else { ax };
    let above = a.y as i64 - 42;
    let below = a.y as i64 + ah;
    let yv = if above >= min_y { above } else { below };
    let y = if yv < min_y { min_y } else if yv > hi_y { hi_y } else { yv };
    (x, y)
}

/// Escape and a right click always close the editor without a result and
/// leave its state alone.
pub proof fn lemma_escape_cancels(old: EditorView, ctrl: bool, new: EditorView, act: EditorAction)
    requires
        editor_next(old, EditorEvent::KeyDown { key: KEY_ESCAPE, ctrl }, new, act)
            || editor_next(old, EditorEvent::RightDown, new, act),
    ensures
        act == EditorAction::Cancel,
        new == old,
{
}

/// Ctrl+Z followed by Ctrl+Y gives back the document, when there was a shape
/// to take back.
pub proof fn lemma_undo_redo_keys(
    v0: EditorView,
    v1: EditorView,
    a1: EditorAction,
    v2: EditorView,
    a2: EditorAction,
)
    requires
        v0.doc.shapes.len() > 0,
        editor_next(v0, EditorEvent::KeyDown { key: 0x5a, ctrl: true }, v1, a1),
        editor_next(v1, EditorEvent::KeyDown { key: 0x59, ctrl: true }, v2, a2),
    ensures
        v2 == v0,
{
    crate::annotate::lemma_undo_redo_round_trip(v0.doc);
}

/// Choosing a tool changes nothing but the tool.
pub proof fn lemma_tool_keys_only_switch_tools(old: EditorView, key: usize, ctrl: bool, new: EditorView, act: EditorAction)
    requires
        0x31 <= key <= 0x38,
        editor_next(old, EditorEvent::KeyDown { key, ctrl }, new, act),
    ensures
        same_but_tool(old, new),
        act == EditorAction::Redraw,
        Some(new.tool) == tool_for_index(key - 0x31),
{
}


/// The toolbar's tools from left to right: digit key `1` + i and toolbar
/// button i choose the i-th of them.
pub open spec fn toolbar_order() -> Seq<AnnotationTool> {
    seq![
        AnnotationTool::Rectangle,
        AnnotationTool::Ellipse,
        AnnotationTool::Arrow,
        AnnotationTool::Line,
        AnnotationTool::Brush,
        AnnotationTool::Text,
        AnnotationTool::Mosaic,
        AnnotationTool::Number,
    ]
}

/// Digit key `1` + i chooses the i-th tool of the toolbar, left to right:
/// rectangle, ellipse, arrow, line, pen, text, mosaic, number.
pub proof fn lemma_digit_keys_follow_toolbar(old: EditorView, key: usize, ctrl: bool, new: EditorView, act: EditorAction)
    requires
        0x31 <= key <= 0x38,
        editor_next(old, EditorEvent::KeyDown { key, ctrl }, new, act),
    ensures
        new.tool == toolbar_order()[key - 0x31],
{
}

/// Toolbar button i chooses the i-th tool of the toolbar, for the eight
/// tool buttons.
pub proof fn lemma_tool_buttons_follow_toolbar(old: EditorView, point: Point, idx: i32, new: EditorView, act: EditorAction)
    requires
        0 <= idx < 8,
        editor_next(old, EditorEvent::LeftDown { point, toolbar: Some(idx) }, new, act),
    ensures
        new.tool == toolbar_order()[idx as int],
{
}

/// The width of one toolbar button, in window pixels.
pub const TOOLBAR_BUTTON_WIDTH: i32 = 84;

/// The toolbar button under a point given relative to the editor window's
/// corner, once the toolbar takes clicks: the point must lie in the strip
/// across the window's top.
pub open spec fn toolbar_index_spec(ready: bool, local_x: int, local_y: int, window_width: int) -> Option<i32> {
    if ready && 0 <= local_x < window_width && 0 <= local_y < 42 {
        Some((local_x / 84) as i32)
    } else {
        None
    }
}

pub fn toolbar_index(ready: bool, local_x: i32, local_y: i32, window_width: i32) -> (r: Option<i32>)
    ensures
        r == toolbar_index_spec(ready, local_x as int, local_y as int, window_width as int),
{
    if ready && local_x >= 0 && local_x < window_width && local_y >= 0 && local_y < TOOLBAR_HEIGHT {
        Some(local_x / TOOLBAR_BUTTON_WIDTH)
    } else {
        None
    }
}

/// A color as the system's `0x00BBGGRR` value.
pub open spec fn colorref_spec(c: Color) -> u32 {
    (c.r + c.g * 0x100 + c.b * 0x1_0000) as u32
}

pub fn colorref_value(c: Color) -> (v: u32)
    ensures
        v == colorref_spec(c),
{
    let r = c.r as u32;
    let g = c.g as u32;
    let b = c.b as u32;
    let v = r | (g << 8u32) | (b << 16u32);
    assert(v == r + g * 0x100 + b * 0x1_0000) by (bit_vector)
        requires
            r < 256,
            g < 256,
            b < 256,
            v == r | (g << 8u32) | (b << 16u32),
    ;
    v
}


fn fits_check(rect: Rect, width: u32, height: u32) -> (b: bool)
    ensures
        b == rect_check_fits(rect, width, height),
{
    let head = rect.width > 0 && rect.height > 0 && rect.x >= 0 && rect.y >= 0 && (rect.x as i64) < (width as i64)
        && (rect.y as i64) < (height as i64);
    if !head {
        return true;
    }
    let xw = rect.x as u64 + rect.width as u64;
    if xw > 0xffff_ffff {
        return false;
    }
    if xw <= width as u64 {
        return rect.y as u64 + rect.height as u64 <= 0xffff_ffff;
    }
    true
}

fn inside_check(rect: Rect, width: u32, height: u32) -> (b: bool)
    ensures
        b == rect_inside(rect, width, height),
{
    rect.width > 0 && rect.height > 0 && rect.x >= 0 && rect.y >= 0 && (rect.x as i64) < (width as i64)
        && (rect.y as i64) < (height as i64) && rect.x as u64 + rect.width as u64 <= width as u64
        && rect.y as u64 + rect.height as u64 <= height as u64
}

/// Whether a shape can be drawn on a `width` x `height` image of `len`
/// bytes with the given plan.
pub fn shape_ready_check(shape: &AnnotationShape, width: u32, height: u32, plan: &ShapePlan, len: usize) -> (b: bool)
    ensures
        b == shape_ready(*shape, width, height, *plan, len as int),
{
    match shape {
        AnnotationShape::Rectangle { rect, .. } => fits_check(*rect, width, height),
        AnnotationShape::Ellipse { rect, .. } => fits_check(*rect, width, height) && matches!(plan, ShapePlan::EllipseRing(_)),
        AnnotationShape::Arrow { .. } => matches!(plan, ShapePlan::ArrowHead(_)),
        AnnotationShape::Line { .. } => true,
        AnnotationShape::Brush { .. } => true,
        AnnotationShape::Text { text, .. } => text.as_str().is_empty() || match plan {
            ShapePlan::Rendered(bytes) => bytes.len() == len,
            ShapePlan::Plain => {
                let n = text.as_str().unicode_len();
                n <= 0x7fff_ffff && ((width > 0 && height > 0) || !has_visible_text(text.as_str()))
            },
            _ => false,
        },
        AnnotationShape::Mosaic { rect, block_size } => fits_check(*rect, width, height) && *block_size <= 0x7fff_ffff,
        AnnotationShape::Number { .. } => width > 0 && height > 0,
    }
}

fn refuses_check(shape: &AnnotationShape, width: u32, height: u32) -> (b: bool)
    ensures
        b == shape_refuses(*shape, width, height),
{
    match shape {
        AnnotationShape::Rectangle { rect, .. } => !inside_check(*rect, width, height),
        AnnotationShape::Ellipse { rect, .. } => !inside_check(*rect, width, height),
        AnnotationShape::Mosaic { rect, .. } => !inside_check(*rect, width, height),
        _ => false,
    }
}

/// Whether a document can be rendered onto an image with these plans: one
/// plan per shape, and each shape rendering reaches ready for its plan.
pub fn render_ready_check(doc: &AnnotationDocument, image: &CapturedImage, plans: &Vec<ShapePlan>) -> (b: bool)
    requires
        image.wf(),
    ensures
        b == (plans@.len() == doc@.shapes.len() && render_ready(image.width, image.height, image.rgba@.len() as int, doc@.shapes, plans@, 0)),
{
    let shapes = doc.shapes();
    if plans.len() != shapes.len() {
        return false;
    }
    let len = image.rgba.len();
    let ghost sh = doc@.shapes;
    let mut i: usize = 0;
    while i < shapes.len()
        invariant
            shapes@ == sh,
            sh == doc@.shapes,
            plans@.len() == sh.len(),
            len == image.rgba@.len(),
            i <= sh.len(),
            render_ready(image.width, image.height, len as int, sh, plans@, 0) == render_ready(image.width, image.height, len as int, sh, plans@, i as int),
        decreases sh.len() - i,
    {
        if !shape_ready_check(&shapes[i], image.width, image.height, &plans[i], len) {
            return false;
        }
        if refuses_check(&shapes[i], image.width, image.height) {
            return true;
        }
        i = i + 1;
    }
    true
}

} // verus!
