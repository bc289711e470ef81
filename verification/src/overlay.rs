//! The region-selection overlay's decisions: hit testing the selection, the
//! move and resize geometry, where the external toolbar goes, and what each
//! mouse or key event does. The layered window, the frozen screenshot and
//! the painting live outside this library.
use crate::annotate::{normalize_rect, normalize_spec, Point};
use crate::api::Rect;
use crate::capture::Bounds;
use crate::raster::{decimal_chars, decimal_digits, lemma_digits_short};
use vstd::prelude::*;

verus! {

/// How the user ended a selection.
#[derive(Debug, Clone, Copy, PartialEq, Eq, Structural)]
pub enum SelectionDecision {
    Confirm,
    Pin,
    Cancel,
}

/// The eight resize handles of a selection.
#[derive(Debug, Clone, Copy, PartialEq, Eq, Structural)]
pub enum Handle {
    TopLeft,
    Top,
    TopRight,
    Right,
    BottomRight,
    Bottom,
    BottomLeft,
    Left,
}

/// Where a point falls relative to the selection.
#[derive(Debug, Clone, Copy, PartialEq, Eq, Structural)]
pub enum HitZone {
    Handle(Handle),
    Inside,
    Outside,
}

/// The drag in progress.
#[derive(Debug, Clone, Copy, PartialEq, Eq, Structural)]
pub enum Drag {
    Idle,
    NewSelection,
    Move,
    Resize(Handle),
}

/// Whether the first selection is still being drawn or is being edited.
#[derive(Debug, Clone, Copy, PartialEq, Eq, Structural)]
pub enum Phase {
    Selecting,
    Editing,
}

/// How close, in pixels, the cursor must be to grab an edge or corner.
pub const GRAB_MARGIN: i32 = 8;

/// Gap between the selection and the toolbar.
pub const TOOLBAR_GAP: i32 = 8;

/// Screen coordinates: Windows keeps logical coordinates within 28 bits, and
/// a selection spans at most two such coordinates.
pub open spec fn pt_ok(p: Point) -> bool {
    -0x1000_0000 <= p.x <= 0x1000_0000 && -0x1000_0000 <= p.y <= 0x1000_0000
}

pub open spec fn rect_ok(r: Rect) -> bool {
    &&& -0x1000_0000 <= r.x <= 0x1000_0000
    &&& -0x1000_0000 <= r.y <= 0x1000_0000
    &&& r.width <= 0x2000_0000
    &&& r.height <= 0x2000_0000
}

/// The virtual screen: corner and size within 27 bits.
pub open spec fn screen_ok(r: Rect) -> bool {
    &&& -0x800_0000 <= r.x <= 0x800_0000
    &&& -0x800_0000 <= r.y <= 0x800_0000
    &&& r.width <= 0x800_0000
    &&& r.height <= 0x800_0000
}

pub open spec fn near(a: int, target: int) -> bool {
    -8 <= a - target <= 8
}

/// Division by two rounding toward zero, as Rust's `/` does.
pub open spec fn half(v: int) -> int {
    if v >= 0 {
        v / 2
    } else {
        -((-v) / 2)
    }
}

/// Which handle, if any, the point grabs (corners before edge midpoints),
/// else whether it is inside the selection (edges included).
pub open spec fn hit_spec(sel: Rect, p: Point) -> HitZone {
    let l = sel.x as int;
    let t = sel.y as int;
    let r = sel.x + sel.width;
    let b = sel.y + sel.height;
    let cx = half(l + r);
    let cy = half(t + b);
    if near(p.x as int, l) && near(p.y as int, t) {
        HitZone::Handle(Handle::TopLeft)
    } else if near(p.x as int, r) && near(p.y as int, t) {
        HitZone::Handle(Handle::TopRight)
    } else if near(p.x as int, l) && near(p.y as int, b) {
        HitZone::Handle(Handle::BottomLeft)
    } else if near(p.x as int, r) && near(p.y as int, b) {
        HitZone::Handle(Handle::BottomRight)
    } else if near(p.x as int, cx) && near(p.y as int, t) {
        HitZone::Handle(Handle::Top)
    } else if near(p.x as int, cx) && near(p.y as int, b) {
        HitZone::Handle(Handle::Bottom)
    } else if near(p.x as int, l) && near(p.y as int, cy) {
        HitZone::Handle(Handle::Left)
    } else if near(p.x as int, r) && near(p.y as int, cy) {
        HitZone::Handle(Handle::Right)
    } else if l <= p.x <= r && t <= p.y <= b {
        HitZone::Inside
    } else {
        HitZone::Outside
    }
}

fn half_i32(v: i32) -> (h: i32)
    ensures
        h == half(v as int),
{
    if v >= 0 {
        v / 2
    } else {
        -((-(v as i64)) / 2) as i32
    }
}

fn near_i32(a: i32, target: i32) -> (b: bool)
    requires
        -0x3000_0000 <= a <= 0x3000_0000,
        -0x3000_0000 <= target <= 0x3000_0000,
    ensures
        b == near(a as int, target as int),
{
    let d = a - target;
    -GRAB_MARGIN <= d && d <= GRAB_MARGIN
}

/// Classifies a point against the selection.
pub fn hit_test(sel: Rect, p: Point) -> (z: HitZone)
    requires
        rect_ok(sel),
        pt_ok(p),
    ensures
        z == hit_spec(sel, p),
{
    let l = sel.x;
    let t = sel.y;
    let r = sel.x + sel.width as i32;
    let b = sel.y + sel.height as i32;
    let cx = half_i32(l + r);
    let cy = half_i32(t + b);
    if near_i32(p.x, l) && near_i32(p.y, t) {
        return HitZone::Handle(Handle::TopLeft);
    }
    if near_i32(p.x, r) && near_i32(p.y, t) {
        return HitZone::Handle(Handle::TopRight);
    }
    if near_i32(p.x, l) && near_i32(p.y, b) {
        return HitZone::Handle(Handle::BottomLeft);
    }
    if near_i32(p.x, r) && near_i32(p.y, b) {
        return HitZone::Handle(Handle::BottomRight);
    }
    if near_i32(p.x, cx) && near_i32(p.y, t) {
        return HitZone::Handle(Handle::Top);
    }
    if near_i32(p.x, cx) && near_i32(p.y, b) {
        return HitZone::Handle(Handle::Bottom);
    }
    if near_i32(p.x, l) && near_i32(p.y, cy) {
        return HitZone::Handle(Handle::Left);
    }
    if near_i32(p.x, r) && near_i32(p.y, cy) {
        return HitZone::Handle(Handle::Right);
    }
    if p.x >= l && p.x <= r && p.y >= t && p.y <= b {
        return HitZone::Inside;
    }
    HitZone::Outside
}

pub open spec fn clamp(v: int, lo: int, hi: int) -> int {
    if v < lo {
        lo
    } else if v > hi {
        hi
    } else {
        v
    }
}

pub open spec fn max(a: int, b: int) -> int {
    if a > b {
        a
    } else {
        b
    }
}

pub open spec fn min(a: int, b: int) -> int {
    if a < b {
        a
    } else {
        b
    }
}

/// The selection dragged by the cursor's travel from `origin` to `p`, kept
/// inside the virtual screen when it fits there.
pub open spec fn move_spec(orig: Rect, origin: Point, p: Point, vr: Rect) -> Rect {
    let max_x = max(vr.x + vr.width - orig.width, vr.x as int);
    let max_y = max(vr.y + vr.height - orig.height, vr.y as int);
    Rect {
        x: clamp(orig.x + (p.x - origin.x), vr.x as int, max_x) as i32,
        y: clamp(orig.y + (p.y - origin.y), vr.y as int, max_y) as i32,
        width: orig.width,
        height: orig.height,
    }
}

/// Moves the selection by the cursor's travel.
pub fn apply_move(orig: Rect, origin: Point, p: Point, vr: Rect) -> (r: Rect)
    requires
        rect_ok(orig),
        pt_ok(origin),
        pt_ok(p),
        screen_ok(vr),
    ensures
        r == move_spec(orig, origin, p, vr),
{
    let dx = p.x - origin.x;
    let dy = p.y - origin.y;
    let w = orig.width as i32;
    let h = orig.height as i32;
    let mx = vr.x + vr.width as i32 - w;
    let max_x = if mx > vr.x { mx } else { vr.x };
    let my = vr.y + vr.height as i32 - h;
    let max_y = if my > vr.y { my } else { vr.y };
    let nx = orig.x + dx;
    let ny = orig.y + dy;
    let x = if nx < vr.x { vr.x } else if nx > max_x { max_x } else { nx };
    let y = if ny < vr.y { vr.y } else if ny > max_y { max_y } else { ny };
    Rect { x, y, width: orig.width, height: orig.height }
}

/// The selection with the grabbed handle's edges moved to the cursor, all
/// edges clamped to the virtual screen, then re-normalised, at least one
/// pixel each way.
pub open spec fn resize_spec(orig: Rect, h: Handle, p: Point, vr: Rect) -> Rect {
    let l0 = orig.x as int;
    let t0 = orig.y as int;
    let r0 = orig.x + orig.width;
    let b0 = orig.y + orig.height;
    let l1 = if h == Handle::TopLeft || h == Handle::BottomLeft || h == Handle::Left { p.x as int } else { l0 };
    let t1 = if h == Handle::TopLeft || h == Handle::Top || h == Handle::TopRight { p.y as int } else { t0 };
    let r1 = if h == Handle::TopRight || h == Handle::Right || h == Handle::BottomRight { p.x as int } else { r0 };
    let b1 = if h == Handle::BottomRight || h == Handle::Bottom || h == Handle::BottomLeft { p.y as int } else { b0 };
    let min_x = vr.x as int;
    let max_x = vr.x + vr.width;
    let min_y = vr.y as int;
    let max_y = vr.y + vr.height;
    let l = clamp(l1, min_x, max_x);
    let r = clamp(r1, min_x, max_x);
    let t = clamp(t1, min_y, max_y);
    let b = clamp(b1, min_y, max_y);
    let x0 = min(l, r);
    let x1 = max(l, r);
    let y0 = min(t, b);
    let y1 = max(t, b);
    Rect { x: x0 as i32, y: y0 as i32, width: max(x1 - x0, 1) as u32, height: max(y1 - y0, 1) as u32 }
}

fn clamp_i32(v: i32, lo: i32, hi: i32) -> (r: i32)
    requires
        lo <= hi,
    ensures
        r == clamp(v as int, lo as int, hi as int),
{
    if v < lo {
        lo
    } else if v > hi {
        hi
    } else {
        v
    }
}

/// Resizes the selection by dragging one handle.
pub fn apply_resize(orig: Rect, h: Handle, p: Point, vr: Rect) -> (r: Rect)
    requires
        rect_ok(orig),
        pt_ok(p),
        screen_ok(vr),
    ensures
        r == resize_spec(orig, h, p, vr),
{
    let mut l = orig.x;
    let mut t = orig.y;
    let mut r = orig.x + orig.width as i32;
    let mut b = orig.y + orig.height as i32;
    match h {
        Handle::TopLeft => {
            l = p.x;
            t = p.y;
        },
        Handle::Top => t = p.y,
        Handle::TopRight => {
            r = p.x;
            t = p.y;
        },
        Handle::Right => r = p.x,
        Handle::BottomRight => {
            r = p.x;
            b = p.y;
        },
        Handle::Bottom => b = p.y,
        Handle::BottomLeft => {
            l = p.x;
            b = p.y;
        },
        Handle::Left => l = p.x,
    }
    let min_x = vr.x;
    let max_x = vr.x + vr.width as i32;
    let min_y = vr.y;
    let max_y = vr.y + vr.height as i32;
    l = clamp_i32(l, min_x, max_x);
    r = clamp_i32(r, min_x, max_x);
    t = clamp_i32(t, min_y, max_y);
    b = clamp_i32(b, min_y, max_y);
    let x0 = if l < r { l } else { r };
    let x1 = if l > r { l } else { r };
    let y0 = if t < b { t } else { b };
    let y1 = if t > b { t } else { b };
    let w = if x1 - x0 > 1 { x1 - x0 } else { 1 };
    let hh = if y1 - y0 > 1 { y1 - y0 } else { 1 };
    Rect { x: x0, y: y0, width: w as u32, height: hh as u32 }
}

/// Where the toolbar goes: below the selection when it fits on screen,
/// otherwise above it (but not above the screen); shifted left to stay on
/// screen, but never left of the screen.
pub open spec fn toolbar_spec(vr: Rect, tw: u32, th: u32, sel: Rect) -> Rect {
    let screen_right = vr.x + vr.width;
    let screen_bottom = vr.y + vr.height;
    let x1 = if sel.x + tw > screen_right { screen_right - tw } else { sel.x as int };
    let x = if x1 < vr.x { vr.x as int } else { x1 };
    let y1 = sel.y + sel.height + 8;
    let y = if y1 + th > screen_bottom {
        let y2 = sel.y - 8 - th;
        if y2 < vr.y { vr.y as int } else { y2 }
    } else {
        y1
    };
    Rect { x: x as i32, y: y as i32, width: tw, height: th }
}

/// Places the toolbar next to the selection.
pub fn toolbar_rect(vr: Rect, toolbar_size: (u32, u32), sel: Rect) -> (r: Rect)
    requires
        screen_ok(vr),
        toolbar_size.0 <= 0x800_0000,
        toolbar_size.1 <= 0x800_0000,
        rect_ok(sel),
    ensures
        r == toolbar_spec(vr, toolbar_size.0, toolbar_size.1, sel),
{
    let (tw, th) = toolbar_size;
    let screen_right = vr.x + vr.width as i32;
    let screen_bottom = vr.y + vr.height as i32;
    let mut x = sel.x;
    if x + tw as i32 > screen_right {
        x = screen_right - tw as i32;
    }
    if x < vr.x {
        x = vr.x;
    }
    let mut y = sel.y + sel.height as i32 + TOOLBAR_GAP;
    if y + th as i32 > screen_bottom {
        y = sel.y - TOOLBAR_GAP - th as i32;
        if y < vr.y {
            y = vr.y;
        }
    }
    Rect { x, y, width: tw, height: th }
}

/// Moving keeps the size, and keeps the selection on screen when it fits.
pub proof fn lemma_move_stays_on_screen(orig: Rect, origin: Point, p: Point, vr: Rect)
    requires
        screen_ok(vr),
        orig.width <= vr.width,
        orig.height <= vr.height,
    ensures
        move_spec(orig, origin, p, vr).width == orig.width,
        move_spec(orig, origin, p, vr).height == orig.height,
        vr.x <= move_spec(orig, origin, p, vr).x,
        move_spec(orig, origin, p, vr).x + orig.width <= vr.x + vr.width,
        vr.y <= move_spec(orig, origin, p, vr).y,
        move_spec(orig, origin, p, vr).y + orig.height <= vr.y + vr.height,
{
}

/// Dragging a handle moves exactly the edges it grabs to the cursor and
/// keeps the others, for a selection on screen and a cursor on screen that
/// does not cross the opposite edge: corners move two edges, edge midpoints
/// one (the bottom handle moves only the bottom edge, and so on).
pub proof fn lemma_resize_moves_grabbed_edges(orig: Rect, h: Handle, p: Point, vr: Rect)
    requires
        rect_ok(orig),
        pt_ok(p),
        screen_ok(vr),
        orig.width >= 1,
        orig.height >= 1,
        vr.x <= orig.x,
        orig.x + orig.width <= vr.x + vr.width,
        vr.y <= orig.y,
        orig.y + orig.height <= vr.y + vr.height,
        vr.x <= p.x <= vr.x + vr.width,
        vr.y <= p.y <= vr.y + vr.height,
        h == Handle::TopLeft || h == Handle::Left || h == Handle::BottomLeft ==> p.x < orig.x + orig.width,
        h == Handle::TopRight || h == Handle::Right || h == Handle::BottomRight ==> p.x > orig.x,
        h == Handle::TopLeft || h == Handle::Top || h == Handle::TopRight ==> p.y < orig.y + orig.height,
        h == Handle::BottomLeft || h == Handle::Bottom || h == Handle::BottomRight ==> p.y > orig.y,
    ensures
        resize_spec(orig, h, p, vr).x == (if h == Handle::TopLeft || h == Handle::Left || h == Handle::BottomLeft {
            p.x
        } else {
            orig.x
        }),
        resize_spec(orig, h, p, vr).y == (if h == Handle::TopLeft || h == Handle::Top || h == Handle::TopRight {
            p.y
        } else {
            orig.y
        }),
        resize_spec(orig, h, p, vr).x + resize_spec(orig, h, p, vr).width == (if h == Handle::TopRight || h
            == Handle::Right || h == Handle::BottomRight {
            p.x as int
        } else {
            orig.x + orig.width
        }),
        resize_spec(orig, h, p, vr).y + resize_spec(orig, h, p, vr).height == (if h == Handle::BottomLeft || h
            == Handle::Bottom || h == Handle::BottomRight {
            p.y as int
        } else {
            orig.y + orig.height
        }),
{
}

/// A resized selection is at least one pixel each way and starts on the
/// virtual screen; when it has some extent, it ends on it too.
pub proof fn lemma_resize_on_screen(orig: Rect, h: Handle, p: Point, vr: Rect)
    requires
        screen_ok(vr),
    ensures
        resize_spec(orig, h, p, vr).width >= 1,
        resize_spec(orig, h, p, vr).height >= 1,
        vr.x <= resize_spec(orig, h, p, vr).x <= vr.x + vr.width,
        vr.y <= resize_spec(orig, h, p, vr).y <= vr.y + vr.height,
        vr.width >= 1 ==> resize_spec(orig, h, p, vr).x + resize_spec(orig, h, p, vr).width
            <= vr.x + vr.width || resize_spec(orig, h, p, vr).width == 1,
{
}

/// The toolbar never starts left of the virtual screen, and ends on it when
/// it is no wider than the screen.
pub proof fn lemma_toolbar_on_screen(vr: Rect, tw: u32, th: u32, sel: Rect)
    requires
        screen_ok(vr),
        tw <= 0x800_0000,
        th <= 0x800_0000,
        rect_ok(sel),
    ensures
        toolbar_spec(vr, tw, th, sel).x >= vr.x,
        tw <= vr.width ==> toolbar_spec(vr, tw, th, sel).x + tw <= vr.x + vr.width,
        toolbar_spec(vr, tw, th, sel).width == tw,
        toolbar_spec(vr, tw, th, sel).height == th,
{
}

/// A point inside the selection rectangle is never reported outside.
pub proof fn lemma_hit_inside(sel: Rect, p: Point)
    requires
        sel.x <= p.x <= sel.x + sel.width,
        sel.y <= p.y <= sel.y + sel.height,
    ensures
        hit_spec(sel, p) != HitZone::Outside,
{
}

/// A point more than the grab margin away from the selection is outside.
pub proof fn lemma_hit_far(sel: Rect, p: Point)
    requires
        p.x < sel.x - 8 || p.x > sel.x + sel.width + 8 || p.y < sel.y - 8 || p.y > sel.y + sel.height
            + 8,
    ensures
        hit_spec(sel, p) == HitZone::Outside,
{
}


/// The virtual-key codes the overlay reacts to.
pub const VK_ESCAPE_CODE: usize = 0x1b;
pub const VK_RETURN_CODE: usize = 0x0d;

/// The code a decision travels under in the overlay's message queue.
pub open spec fn decision_code_spec(d: SelectionDecision) -> usize {
    match d {
        SelectionDecision::Confirm => 0,
        SelectionDecision::Pin => 1,
        SelectionDecision::Cancel => 2,
    }
}

/// The decision a code stands for; unknown codes confirm.
pub open spec fn decision_from_code_spec(code: usize) -> SelectionDecision {
    if code == 1 {
        SelectionDecision::Pin
    } else if code == 2 {
        SelectionDecision::Cancel
    } else {
        SelectionDecision::Confirm
    }
}

/// Encodes a decision for posting back to a running overlay.
pub fn decision_code(d: SelectionDecision) -> (code: usize)
    ensures
        code == decision_code_spec(d),
{
    match d {
        SelectionDecision::Confirm => 0,
        SelectionDecision::Pin => 1,
        SelectionDecision::Cancel => 2,
    }
}

/// Decodes a posted decision.
pub fn decision_from_code(code: usize) -> (d: SelectionDecision)
    ensures
        d == decision_from_code_spec(code),
{
    if code == 1 {
        SelectionDecision::Pin
    } else if code == 2 {
        SelectionDecision::Cancel
    } else {
        SelectionDecision::Confirm
    }
}

/// A decision survives the trip through its code.
pub proof fn lemma_decision_code_round_trip(d: SelectionDecision)
    ensures
        decision_from_code_spec(decision_code_spec(d)) == d,
{
}

/// The rectangle spanned by a drag, when it is at least two pixels each way.
pub open spec fn selection_from_spec(start: Point, current: Point) -> Option<Rect> {
    let left = min(start.x as int, current.x as int);
    let top = min(start.y as int, current.y as int);
    let right = max(start.x as int, current.x as int);
    let bottom = max(start.y as int, current.y as int);
    if right - left < 2 || bottom - top < 2 {
        None
    } else {
        Some(Rect { x: left as i32, y: top as i32, width: (right - left) as u32, height: (bottom - top) as u32 })
    }
}

/// The selection a drag from `start` to `current` spans.
pub fn selection_rect_from(start: Point, current: Point) -> (r: Option<Rect>)
    requires
        pt_ok(start),
        pt_ok(current),
    ensures
        r == selection_from_spec(start, current),
{
    let left = if start.x < current.x { start.x } else { current.x };
    let top = if start.y < current.y { start.y } else { current.y };
    let right = if start.x > current.x { start.x } else { current.x };
    let bottom = if start.y > current.y { start.y } else { current.y };
    let width = right - left;
    let height = bottom - top;
    if width < 2 || height < 2 {
        return None;
    }
    Some(Rect { x: left, y: top, width: width as u32, height: height as u32 })
}

/// The selection overlay's state apart from the window and the frozen
/// screenshot.
#[derive(Debug, Clone, Copy)]
pub struct OverlayState {
    pub virtual_rect: Rect,
    pub phase: Phase,
    pub drag: Drag,
    /// Where a new-selection drag started.
    pub start: Option<Point>,
    /// Where a new-selection drag is now.
    pub current: Point,
    /// Cursor position when a move or resize started.
    pub drag_origin: Point,
    /// Selection when a move or resize started.
    pub orig_rect: Rect,
    pub selection: Option<Rect>,
    /// The window under the cursor before the first drag.
    pub hover_win: Option<Rect>,
    pub hover_hit: HitZone,
    pub result: Option<Rect>,
    pub decision: SelectionDecision,
    pub canceled: bool,
    /// Whether the selection stays editable with an external toolbar.
    pub interactive: bool,
    /// Whether a decision callback is still waiting for a selection.
    pub decide_pending: bool,
    pub toolbar_size: (u32, u32),
    pub ready_sent: bool,
}

/// An input event of the overlay, in screen coordinates.
#[derive(Debug, Clone, Copy)]
pub enum OverlayEvent {
    LeftDown { point: Point },
    /// The cursor moved; `window` is the visible window under it, looked up
    /// only when [`OverlayState::wants_window_hover`] holds.
    MouseMove { point: Point, window: Option<Rect> },
    LeftUp { point: Point },
    /// The cursor shape is asked for.
    SetCursor { point: Point },
    RightDown,
    KeyDown { key: usize },
    /// A decision came back, under its code.
    DecideDone { code: usize },
}

/// What the window has to do after an event, in this order: capture and
/// release the mouse, hide the toolbar, announce readiness, place the
/// toolbar, hand the selection to the decision callback, post a
/// confirmation, repaint, close.
#[derive(Debug, Clone, Copy)]
pub struct OverlayEffects {
    pub capture_mouse: bool,
    pub release_mouse: bool,
    pub hide_toolbar: bool,
    pub notify_ready: bool,
    pub place_toolbar: Option<Rect>,
    pub spawn_decide: Option<Rect>,
    pub post_confirm: bool,
    pub redraw: bool,
    pub destroy: bool,
    pub cursor: Option<HitZone>,
    /// False when the event is not the overlay's and goes to the default
    /// handler.
    pub handled: bool,
}

pub open spec fn no_effects() -> OverlayEffects {
    OverlayEffects {
        capture_mouse: false,
        release_mouse: false,
        hide_toolbar: false,
        notify_ready: false,
        place_toolbar: None,
        spawn_decide: None,
        post_confirm: false,
        redraw: false,
        destroy: false,
        cursor: None,
        handled: true,
    }
}

fn none_effects() -> (e: OverlayEffects)
    ensures
        e == no_effects(),
{
    OverlayEffects {
        capture_mouse: false,
        release_mouse: false,
        hide_toolbar: false,
        notify_ready: false,
        place_toolbar: None,
        spawn_decide: None,
        post_confirm: false,
        redraw: false,
        destroy: false,
        cursor: None,
        handled: true,
    }
}

pub open spec fn opt_rect_ok(r: Option<Rect>) -> bool {
    match r {
        Some(r) => rect_ok(r),
        None => true,
    }
}

pub open spec fn opt_pt_ok(p: Option<Point>) -> bool {
    match p {
        Some(p) => pt_ok(p),
        None => true,
    }
}

/// Events whose coordinates lie within the screen bounds.
pub open spec fn overlay_event_ok(e: OverlayEvent) -> bool {
    match e {
        OverlayEvent::LeftDown { point } => pt_ok(point),
        OverlayEvent::MouseMove { point, window } => pt_ok(point) && opt_rect_ok(window),
        OverlayEvent::LeftUp { point } => pt_ok(point),
        OverlayEvent::SetCursor { point } => pt_ok(point),
        _ => true,
    }
}

impl OverlayState {
    /// Coordinates stay within the screen bounds.
    pub open spec fn wf(&self) -> bool {
        &&& screen_ok(self.virtual_rect)
        &&& self.toolbar_size.0 <= 0x800_0000
        &&& self.toolbar_size.1 <= 0x800_0000
        &&& pt_ok(self.current)
        &&& pt_ok(self.drag_origin)
        &&& rect_ok(self.orig_rect)
        &&& opt_pt_ok(self.start)
        &&& opt_rect_ok(self.selection)
        &&& opt_rect_ok(self.hover_win)
        &&& opt_rect_ok(self.result)
    }

    /// The state in which the overlay opens.
    pub open spec fn initial(virtual_rect: Rect, interactive: bool, decide_pending: bool, toolbar_size: (u32, u32)) -> OverlayState {
        OverlayState {
            virtual_rect,
            phase: Phase::Selecting,
            drag: Drag::Idle,
            start: None,
            current: Point { x: virtual_rect.x, y: virtual_rect.y },
            drag_origin: Point { x: 0, y: 0 },
            orig_rect: virtual_rect,
            selection: None,
            hover_win: None,
            hover_hit: HitZone::Outside,
            result: None,
            decision: SelectionDecision::Confirm,
            canceled: false,
            interactive,
            decide_pending,
            toolbar_size,
            ready_sent: false,
        }
    }

    /// Opens the overlay over the virtual screen: editable with a toolbar of
    /// the given size when `interactive`, else handing the first selection
    /// to a decision callback when `decide_pending`.
    pub fn new(virtual_rect: Rect, interactive: bool, decide_pending: bool, toolbar_size: (u32, u32)) -> (s: OverlayState)
        ensures
            s == OverlayState::initial(virtual_rect, interactive, decide_pending, toolbar_size),
    {
        OverlayState {
            virtual_rect,
            phase: Phase::Selecting,
            drag: Drag::Idle,
            start: None,
            current: Point { x: virtual_rect.x, y: virtual_rect.y },
            drag_origin: Point { x: 0, y: 0 },
            orig_rect: virtual_rect,
            selection: None,
            hover_win: None,
            hover_hit: HitZone::Outside,
            result: None,
            decision: SelectionDecision::Confirm,
            canceled: false,
            interactive,
            decide_pending,
            toolbar_size,
            ready_sent: false,
        }
    }

    pub open spec fn editing(&self) -> bool {
        self.interactive && self.phase == Phase::Editing
    }

    /// Whether a mouse move needs the window under the cursor.
    pub open spec fn wants_window_hover_spec(&self) -> bool {
        self.drag == Drag::Idle && self.phase == Phase::Selecting && self.selection.is_none()
    }

    pub fn wants_window_hover(&self) -> (b: bool)
        ensures
            b == self.wants_window_hover_spec(),
    {
        matches!(self.drag, Drag::Idle) && matches!(self.phase, Phase::Selecting) && self.selection.is_none()
    }

    /// The drag in progress as a new selection, or else the window under
    /// the cursor, from a given end point.
    pub open spec fn pending_rect(&self, end: Point) -> Option<Rect> {
        match self.start {
            Some(st) => match selection_from_spec(st, end) {
                Some(r) => Some(r),
                None => self.hover_win,
            },
            None => self.hover_win,
        }
    }

    /// The rectangle shown as selected: the new selection being drawn, else
    /// the selection, else (before the first selection) the drag or the
    /// window under the cursor.
    pub open spec fn active_rect_spec(&self) -> Option<Rect> {
        let dragged = match self.start {
            Some(st) => selection_from_spec(st, self.current),
            None => None,
        };
        if self.drag == Drag::NewSelection && dragged.is_some() {
            dragged
        } else if self.selection.is_some() {
            self.selection
        } else if self.phase == Phase::Selecting {
            if dragged.is_some() {
                dragged
            } else {
                self.hover_win
            }
        } else {
            None
        }
    }

    pub fn active_rect(&self) -> (r: Option<Rect>)
        requires
            self.wf(),
        ensures
            r == self.active_rect_spec(),
    {
        let dragged = match self.start {
            Some(st) => selection_rect_from(st, self.current),
            None => None,
        };
        if matches!(self.drag, Drag::NewSelection) && dragged.is_some() {
            return dragged;
        }
        if self.selection.is_some() {
            return self.selection;
        }
        if matches!(self.phase, Phase::Selecting) {
            if dragged.is_some() {
                return dragged;
            }
            return self.hover_win;
        }
        None
    }

    /// What the overlay ends with: nothing when canceled, else the result
    /// and the decision.
    pub open spec fn outcome_spec(&self) -> Option<(Rect, SelectionDecision)> {
        if self.canceled {
            None
        } else {
            match self.result {
                Some(r) => Some((r, self.decision)),
                None => None,
            }
        }
    }

    pub fn outcome(&self) -> (o: Option<(Rect, SelectionDecision)>)
        ensures
            o == self.outcome_spec(),
    {
        if self.canceled {
            None
        } else {
            match self.result {
                Some(r) => Some((r, self.decision)),
                None => None,
            }
        }
    }

    /// The selection to capture: the outcome unless it was canceled.
    pub open spec fn accepted_spec(&self) -> Option<(Rect, SelectionDecision)> {
        match self.outcome_spec() {
            Some((r, d)) => if d == SelectionDecision::Cancel {
                None
            } else {
                Some((r, d))
            },
            None => None,
        }
    }

    pub fn accepted(&self) -> (o: Option<(Rect, SelectionDecision)>)
        ensures
            o == self.accepted_spec(),
    {
        match self.outcome() {
            Some((r, d)) => if matches!(d, SelectionDecision::Cancel) {
                None
            } else {
                Some((r, d))
            },
            None => None,
        }
    }
}

/// Left button pressed.
pub open spec fn left_down_spec(s: OverlayState, p: Point) -> (OverlayState, OverlayEffects) {
    let e = no_effects();
    if s.editing() && s.selection.is_some() {
        let sel = s.selection.unwrap();
        let ns = match hit_spec(sel, p) {
            HitZone::Handle(h) => OverlayState { drag: Drag::Resize(h), drag_origin: p, orig_rect: sel, ..s },
            HitZone::Inside => OverlayState { drag: Drag::Move, drag_origin: p, orig_rect: sel, ..s },
            HitZone::Outside => OverlayState { drag: Drag::NewSelection, start: Some(p), current: p, ..s },
        };
        (ns, OverlayEffects { capture_mouse: true, hide_toolbar: true, redraw: true, ..e })
    } else if s.result.is_some() {
        (s, e)
    } else {
        (OverlayState { drag: Drag::NewSelection, start: Some(p), current: p, ..s }, OverlayEffects { capture_mouse: true, redraw: true, ..e })
    }
}

/// The cursor moved.
pub open spec fn mouse_move_spec(s: OverlayState, p: Point, window: Option<Rect>) -> (OverlayState, OverlayEffects) {
    let e = no_effects();
    let redraw = OverlayEffects { redraw: true, ..e };
    match s.drag {
        Drag::NewSelection => (OverlayState { current: p, ..s }, redraw),
        Drag::Move => (OverlayState { selection: Some(move_spec(s.orig_rect, s.drag_origin, p, s.virtual_rect)), ..s }, redraw),
        Drag::Resize(h) => (OverlayState { selection: Some(resize_spec(s.orig_rect, h, p, s.virtual_rect)), ..s }, redraw),
        Drag::Idle => if s.phase == Phase::Selecting && s.selection.is_none() {
            if s.hover_win != window {
                (OverlayState { hover_win: window, ..s }, redraw)
            } else {
                (s, e)
            }
        } else if s.editing() && s.selection.is_some() {
            (OverlayState { hover_hit: hit_spec(s.selection.unwrap(), p), ..s }, e)
        } else {
            (s, e)
        },
    }
}

/// Left button released.
pub open spec fn left_up_spec(s: OverlayState, p: Point) -> (OverlayState, OverlayEffects) {
    let e = no_effects();
    match s.drag {
        Drag::Move | Drag::Resize(_) => {
            let place = match s.selection {
                Some(sel) => Some(toolbar_spec(s.virtual_rect, s.toolbar_size.0, s.toolbar_size.1, sel)),
                None => None,
            };
            (OverlayState { drag: Drag::Idle, ..s }, OverlayEffects { release_mouse: true, place_toolbar: place, redraw: true, ..e })
        },
        Drag::NewSelection => {
            let rect = s.pending_rect(p);
            let base = OverlayState { drag: Drag::Idle, current: p, start: None, hover_win: None, ..s };
            let fx = OverlayEffects { release_mouse: true, redraw: true, ..e };
            match rect {
                None => (base, fx),
                Some(r) => if s.interactive {
                    (
                        OverlayState { selection: Some(r), phase: Phase::Editing, ready_sent: true, ..base },
                        OverlayEffects {
                            notify_ready: !s.ready_sent,
                            place_toolbar: Some(toolbar_spec(s.virtual_rect, s.toolbar_size.0, s.toolbar_size.1, r)),
                            ..fx
                        },
                    )
                } else {
                    (
                        OverlayState { selection: Some(r), result: Some(r), decide_pending: false, ..base },
                        OverlayEffects { spawn_decide: if s.decide_pending { Some(r) } else { None }, ..fx },
                    )
                },
            }
        },
        Drag::Idle => (s, OverlayEffects { release_mouse: true, ..e }),
    }
}

/// The cursor shape for a point.
pub open spec fn cursor_zone_spec(s: OverlayState, p: Point) -> HitZone {
    match s.drag {
        Drag::Resize(h) => HitZone::Handle(h),
        Drag::Move => HitZone::Inside,
        Drag::NewSelection => HitZone::Outside,
        Drag::Idle => if s.editing() && s.selection.is_some() {
            hit_spec(s.selection.unwrap(), p)
        } else {
            HitZone::Outside
        },
    }
}

/// A key pressed.
pub open spec fn key_down_spec(s: OverlayState, key: usize) -> (OverlayState, OverlayEffects) {
    let e = no_effects();
    if key == VK_ESCAPE_CODE {
        (OverlayState { canceled: true, ..s }, OverlayEffects { destroy: true, ..e })
    } else if key == VK_RETURN_CODE {
        if s.interactive {
            (s, OverlayEffects { post_confirm: s.phase == Phase::Editing && s.selection.is_some(), ..e })
        } else if s.result.is_some() {
            (s, e)
        } else {
            let dragged = match s.start {
                Some(st) => selection_from_spec(st, s.current),
                None => None,
            };
            let rect = if dragged.is_some() {
                dragged
            } else if s.selection.is_some() {
                s.selection
            } else {
                s.hover_win
            };
            match rect {
                Some(r) => (
                    OverlayState { selection: Some(r), result: Some(r), decide_pending: false, ..s },
                    OverlayEffects { spawn_decide: if s.decide_pending { Some(r) } else { None }, ..e },
                ),
                None => (s, e),
            }
        }
    } else {
        (s, OverlayEffects { handled: false, ..e })
    }
}

/// A decision came back.
pub open spec fn decide_done_spec(s: OverlayState, code: usize) -> (OverlayState, OverlayEffects) {
    let d = decision_from_code_spec(code);
    (
        OverlayState {
            decision: d,
            canceled: s.canceled || d == SelectionDecision::Cancel,
            result: if s.result.is_none() { s.selection } else { s.result },
            ..s
        },
        OverlayEffects { destroy: true, ..no_effects() },
    )
}

/// What one event does to the overlay.
pub open spec fn overlay_next(s: OverlayState, ev: OverlayEvent) -> (OverlayState, OverlayEffects) {
    match ev {
        OverlayEvent::LeftDown { point } => left_down_spec(s, point),
        OverlayEvent::MouseMove { point, window } => mouse_move_spec(s, point, window),
        OverlayEvent::LeftUp { point } => left_up_spec(s, point),
        OverlayEvent::SetCursor { point } => (s, OverlayEffects { cursor: Some(cursor_zone_spec(s, point)), ..no_effects() }),
        OverlayEvent::RightDown => (OverlayState { canceled: true, ..s }, OverlayEffects { destroy: true, ..no_effects() }),
        OverlayEvent::KeyDown { key } => key_down_spec(s, key),
        OverlayEvent::DecideDone { code } => decide_done_spec(s, code),
    }
}


/// A step keeps every coordinate within the screen bounds.
pub proof fn lemma_step_keeps_bounds(s: OverlayState, ev: OverlayEvent)
    requires
        s.wf(),
        overlay_event_ok(ev),
    ensures
        overlay_next(s, ev).0.wf(),
{
    match ev {
        OverlayEvent::MouseMove { point, window } => {
            match s.drag {
                Drag::Move => {
                    lemma_move_stays_in_bounds(s.orig_rect, s.drag_origin, point, s.virtual_rect);
                },
                Drag::Resize(h) => {
                    lemma_resize_on_screen(s.orig_rect, h, point, s.virtual_rect);
                },
                _ => {},
            }
        },
        _ => {},
    }
}

proof fn lemma_move_stays_in_bounds(orig: Rect, origin: Point, p: Point, vr: Rect)
    requires
        screen_ok(vr),
        rect_ok(orig),
    ensures
        rect_ok(move_spec(orig, origin, p, vr)),
{
}

impl OverlayState {
    fn fx_redraw() -> (e: OverlayEffects)
        ensures
            e == (OverlayEffects { redraw: true, ..no_effects() }),
    {
        let mut e = none_effects();
        e.redraw = true;
        e
    }

    fn on_left_down(&mut self, p: Point) -> (eff: OverlayEffects)
        requires
            old(self).wf(),
            pt_ok(p),
        ensures
            (*final(self), eff) == left_down_spec(*old(self), p),
    {
        let mut e = none_effects();
        if self.interactive && matches!(self.phase, Phase::Editing) {
            if let Some(sel) = self.selection {
                match hit_test(sel, p) {
                    HitZone::Handle(h) => {
                        self.drag = Drag::Resize(h);
                        self.drag_origin = p;
                        self.orig_rect = sel;
                    },
                    HitZone::Inside => {
                        self.drag = Drag::Move;
                        self.drag_origin = p;
                        self.orig_rect = sel;
                    },
                    HitZone::Outside => {
                        self.drag = Drag::NewSelection;
                        self.start = Some(p);
                        self.current = p;
                    },
                }
                e.capture_mouse = true;
                e.hide_toolbar = true;
                e.redraw = true;
                return e;
            }
        }
        if self.result.is_some() {
            return e;
        }
        self.drag = Drag::NewSelection;
        self.start = Some(p);
        self.current = p;
        e.capture_mouse = true;
        e.redraw = true;
        e
    }

    fn on_mouse_move(&mut self, p: Point, window: Option<Rect>) -> (eff: OverlayEffects)
        requires
            old(self).wf(),
            pt_ok(p),
            opt_rect_ok(window),
        ensures
            (*final(self), eff) == mouse_move_spec(*old(self), p, window),
    {
        match self.drag {
            Drag::NewSelection => {
                self.current = p;
                Self::fx_redraw()
            },
            Drag::Move => {
                self.selection = Some(apply_move(self.orig_rect, self.drag_origin, p, self.virtual_rect));
                Self::fx_redraw()
            },
            Drag::Resize(h) => {
                self.selection = Some(apply_resize(self.orig_rect, h, p, self.virtual_rect));
                Self::fx_redraw()
            },
            Drag::Idle => {
                if matches!(self.phase, Phase::Selecting) && self.selection.is_none() {
                    if !same_opt_rect(self.hover_win, window) {
                        self.hover_win = window;
                        return Self::fx_redraw();
                    }
                } else if self.interactive && matches!(self.phase, Phase::Editing) {
                    if let Some(sel) = self.selection {
                        self.hover_hit = hit_test(sel, p);
                    }
                }
                none_effects()
            },
        }
    }

    fn on_left_up(&mut self, p: Point) -> (eff: OverlayEffects)
        requires
            old(self).wf(),
            pt_ok(p),
        ensures
            (*final(self), eff) == left_up_spec(*old(self), p),
    {
        let mut e = none_effects();
        match self.drag {
            Drag::Move | Drag::Resize(_) => {
                self.drag = Drag::Idle;
                e.release_mouse = true;
                if let Some(sel) = self.selection {
                    e.place_toolbar = Some(toolbar_rect(self.virtual_rect, self.toolbar_size, sel));
                }
                e.redraw = true;
                e
            },
            Drag::NewSelection => {
                self.drag = Drag::Idle;
                self.current = p;
                let dragged = match self.start {
                    Some(st) => selection_rect_from(st, p),
                    None => None,
                };
                let rect = if dragged.is_some() { dragged } else { self.hover_win };
                self.start = None;
                self.hover_win = None;
                e.release_mouse = true;
                if let Some(r) = rect {
                    if self.interactive {
                        self.selection = Some(r);
                        self.phase = Phase::Editing;
                        if !self.ready_sent {
                            self.ready_sent = true;
                            e.notify_ready = true;
                        }
                        e.place_toolbar = Some(toolbar_rect(self.virtual_rect, self.toolbar_size, r));
                    } else {
                        self.selection = Some(r);
                        self.result = Some(r);
                        if self.decide_pending {
                            self.decide_pending = false;
                            e.spawn_decide = Some(r);
                        }
                    }
                }
                e.redraw = true;
                e
            },
            Drag::Idle => {
                e.release_mouse = true;
                e
            },
        }
    }

    fn cursor_zone(&self, p: Point) -> (z: HitZone)
        requires
            self.wf(),
            pt_ok(p),
        ensures
            z == cursor_zone_spec(*self, p),
    {
        match self.drag {
            Drag::Resize(h) => HitZone::Handle(h),
            Drag::Move => HitZone::Inside,
            Drag::NewSelection => HitZone::Outside,
            Drag::Idle => {
                if self.interactive && matches!(self.phase, Phase::Editing) {
                    match self.selection {
                        Some(sel) => hit_test(sel, p),
                        None => HitZone::Outside,
                    }
                } else {
                    HitZone::Outside
                }
            },
        }
    }

    fn on_key_down(&mut self, key: usize) -> (eff: OverlayEffects)
        requires
            old(self).wf(),
        ensures
            (*final(self), eff) == key_down_spec(*old(self), key),
    {
        let mut e = none_effects();
        if key == VK_ESCAPE_CODE {
            self.canceled = true;
            e.destroy = true;
            return e;
        }
        if key == VK_RETURN_CODE {
            if self.interactive {
                e.post_confirm = matches!(self.phase, Phase::Editing) && self.selection.is_some();
            } else if self.result.is_none() {
                let dragged = match self.start {
                    Some(st) => selection_rect_from(st, self.current),
                    None => None,
                };
                let rect = if dragged.is_some() {
                    dragged
                } else if self.selection.is_some() {
                    self.selection
                } else {
                    self.hover_win
                };
                if let Some(r) = rect {
                    self.selection = Some(r);
                    self.result = Some(r);
                    if self.decide_pending {
                        self.decide_pending = false;
                        e.spawn_decide = Some(r);
                    }
                }
            }
            return e;
        }
        e.handled = false;
        e
    }

    fn on_decide_done(&mut self, code: usize) -> (eff: OverlayEffects)
        ensures
            (*final(self), eff) == decide_done_spec(*old(self), code),
    {
        let d = decision_from_code(code);
        self.decision = d;
        if matches!(d, SelectionDecision::Cancel) {
            self.canceled = true;
        }
        if self.result.is_none() {
            self.result = self.selection;
        }
        let mut e = none_effects();
        e.destroy = true;
        e
    }

    /// Applies one event and says what the window has to do.
    pub fn step(&mut self, ev: OverlayEvent) -> (eff: OverlayEffects)
        requires
            old(self).wf(),
            overlay_event_ok(ev),
        ensures
            (*final(self), eff) == overlay_next(*old(self), ev),
            final(self).wf(),
    {
        proof {
            lemma_step_keeps_bounds(*self, ev);
        }
        match ev {
            OverlayEvent::LeftDown { point } => self.on_left_down(point),
            OverlayEvent::MouseMove { point, window } => self.on_mouse_move(point, window),
            OverlayEvent::LeftUp { point } => self.on_left_up(point),
            OverlayEvent::SetCursor { point } => {
                let mut e = none_effects();
                e.cursor = Some(self.cursor_zone(point));
                e
            },
            OverlayEvent::RightDown => {
                self.canceled = true;
                let mut e = none_effects();
                e.destroy = true;
                e
            },
            OverlayEvent::KeyDown { key } => self.on_key_down(key),
            OverlayEvent::DecideDone { code } => self.on_decide_done(code),
        }
    }
}

fn same_opt_rect(a: Option<Rect>, b: Option<Rect>) -> (r: bool)
    ensures
        r == (a == b),
{
    match (a, b) {
        (Some(x), Some(y)) => x.x == y.x && x.y == y.y && x.width == y.width && x.height == y.height,
        (None, None) => true,
        _ => false,
    }
}


/// Escape or a right click closes the overlay with nothing selected, from
/// any state.
pub proof fn lemma_escape_or_right_click_cancels(s: OverlayState)
    ensures
        overlay_next(s, OverlayEvent::KeyDown { key: VK_ESCAPE_CODE }).0.outcome_spec().is_none(),
        overlay_next(s, OverlayEvent::KeyDown { key: VK_ESCAPE_CODE }).1.destroy,
        overlay_next(s, OverlayEvent::RightDown).0.outcome_spec().is_none(),
        overlay_next(s, OverlayEvent::RightDown).1.destroy,
{
}

/// A decision that comes back closes the overlay: a cancel leaves nothing
/// selected; any other decision on a live selection returns it with that
/// decision.
pub proof fn lemma_decision_closes(s: OverlayState, code: usize)
    ensures
        overlay_next(s, OverlayEvent::DecideDone { code }).1.destroy,
        decision_from_code_spec(code) == SelectionDecision::Cancel ==> overlay_next(
            s,
            OverlayEvent::DecideDone { code },
        ).0.outcome_spec().is_none(),
        decision_from_code_spec(code) != SelectionDecision::Cancel && !s.canceled && s.result.is_none()
            && s.selection.is_some() ==> overlay_next(s, OverlayEvent::DecideDone { code }).0.outcome_spec()
            == Some((s.selection.unwrap(), decision_from_code_spec(code))),
{
}

/// In the one-shot overlay, pressing at one point and releasing at another
/// at least two pixels away each way selects the rectangle between them
/// and hands it to the decision callback.
pub proof fn lemma_drag_selects(vr: Rect, a: Point, b: Point)
    requires
        selection_from_spec(a, b).is_some(),
    ensures
        ({
            let s0 = OverlayState::initial(vr, false, true, (0, 0));
            let s1 = overlay_next(s0, OverlayEvent::LeftDown { point: a }).0;
            let (s2, fx) = overlay_next(s1, OverlayEvent::LeftUp { point: b });
            &&& s2.result == selection_from_spec(a, b)
            &&& fx.spawn_decide == selection_from_spec(a, b)
            &&& !s2.decide_pending
        }),
{
}

/// In the editable overlay, a first selection opens editing, announces
/// readiness once and places the toolbar next to the selection.
pub proof fn lemma_first_selection_opens_editing(vr: Rect, ts: (u32, u32), a: Point, b: Point)
    requires
        selection_from_spec(a, b).is_some(),
    ensures
        ({
            let s0 = OverlayState::initial(vr, true, false, ts);
            let s1 = overlay_next(s0, OverlayEvent::LeftDown { point: a }).0;
            let (s2, fx) = overlay_next(s1, OverlayEvent::LeftUp { point: b });
            let sel = selection_from_spec(a, b).unwrap();
            &&& s2.phase == Phase::Editing
            &&& s2.selection == Some(sel)
            &&& fx.notify_ready
            &&& fx.place_toolbar == Some(toolbar_spec(vr, ts.0, ts.1, sel))
            &&& s2.result.is_none()
        }),
{
}


/// The smallest window, each way, that hovering highlights.
pub const MIN_HOVER_SIDE: i32 = 32;

/// The rectangle of a visible, not minimised window under the cursor, when
/// the window is at least 32 pixels each way and the point lies on it
/// (edges included).
pub open spec fn hover_spec(b: Bounds, p: Point) -> Option<Rect> {
    let w = b.right - b.left;
    let h = b.bottom - b.top;
    if w < 32 || h < 32 {
        None
    } else if b.left <= p.x <= b.right && b.top <= p.y <= b.bottom {
        Some(Rect { x: b.left, y: b.top, width: w as u32, height: h as u32 })
    } else {
        None
    }
}

/// Whether a window highlights under the cursor, and as which rectangle.
pub fn window_under_point(b: Bounds, p: Point) -> (r: Option<Rect>)
    ensures
        r == hover_spec(b, p),
{
    let w = b.right as i64 - b.left as i64;
    let h = b.bottom as i64 - b.top as i64;
    if w < 32 || h < 32 {
        return None;
    }
    if p.x >= b.left && p.x <= b.right && p.y >= b.top && p.y <= b.bottom {
        Some(Rect { x: b.left, y: b.top, width: w as u32, height: h as u32 })
    } else {
        None
    }
}

/// Half the side of a drawn resize handle.
pub const HANDLE_HALF: i32 = 4;

/// The eight handle squares of a selection drawn at `(l, t)`-`(r, b)`: the
/// corners and edge midpoints, clockwise from the top-left corner.
pub open spec fn handle_centers(l: int, t: int, r: int, b: int) -> Seq<(int, int)> {
    let cx = half(l + r);
    let cy = half(t + b);
    seq![(l, t), (cx, t), (r, t), (r, cy), (r, b), (cx, b), (l, b), (l, cy)]
}

/// The squares the selection's resize handles are painted in, as edges.
pub fn handle_squares(left: i32, top: i32, right: i32, bottom: i32) -> (v: Vec<Bounds>)
    requires
        -0x3000_0000 <= left <= 0x3000_0000,
        -0x3000_0000 <= top <= 0x3000_0000,
        -0x3000_0000 <= right <= 0x3000_0000,
        -0x3000_0000 <= bottom <= 0x3000_0000,
    ensures
        v@.len() == 8,
        forall|i: int| 0 <= i < 8 ==> #[trigger] v@[i] == (Bounds {
            left: (handle_centers(left as int, top as int, right as int, bottom as int)[i].0 - 4) as i32,
            top: (handle_centers(left as int, top as int, right as int, bottom as int)[i].1 - 4) as i32,
            right: (handle_centers(left as int, top as int, right as int, bottom as int)[i].0 + 4) as i32,
            bottom: (handle_centers(left as int, top as int, right as int, bottom as int)[i].1 + 4) as i32,
        }),
{
    let cx = half_i32(left + right);
    let cy = half_i32(top + bottom);
    let xs: [i32; 8] = [left, cx, right, right, right, cx, left, left];
    let ys: [i32; 8] = [top, top, top, cy, bottom, bottom, bottom, cy];
    let ghost centers = handle_centers(left as int, top as int, right as int, bottom as int);
    let mut v: Vec<Bounds> = Vec::new();
    let mut i: usize = 0;
    while i < 8
        invariant
            i <= 8,
            v@.len() == i,
            xs@ == seq![left, cx, right, right, right, cx, left, left],
            ys@ == seq![top, top, top, cy, bottom, bottom, bottom, cy],
            cx == half(left + right),
            cy == half(top + bottom),
            -0x3000_0000 <= left <= 0x3000_0000,
            -0x3000_0000 <= top <= 0x3000_0000,
            -0x3000_0000 <= right <= 0x3000_0000,
            -0x3000_0000 <= bottom <= 0x3000_0000,
            centers == handle_centers(left as int, top as int, right as int, bottom as int),
            forall|k: int| 0 <= k < i ==> #[trigger] v@[k] == (Bounds {
                left: (centers[k].0 - 4) as i32,
                top: (centers[k].1 - 4) as i32,
                right: (centers[k].0 + 4) as i32,
                bottom: (centers[k].1 + 4) as i32,
            }),
        decreases 8 - i,
    {
        let x = xs[i];
        let y = ys[i];
        assert(x == centers[i as int].0 && y == centers[i as int].1);
        v.push(Bounds { left: x - HANDLE_HALF, top: y - HANDLE_HALF, right: x + HANDLE_HALF, bottom: y + HANDLE_HALF });
        i = i + 1;
    }
    v
}

/// The width of the recording indicator's border.
pub const INDICATOR_BORDER: i32 = 3;

/// The four bands of the recording indicator's border inside a `w` x `h`
/// window: top, bottom, left, right.
pub fn indicator_bands(w: i32, h: i32) -> (v: [Bounds; 4])
    requires
        -0x4000_0000 <= w <= 0x4000_0000,
        -0x4000_0000 <= h <= 0x4000_0000,
    ensures
        v@ == seq![
            Bounds { left: 0, top: 0, right: w, bottom: 3 },
            Bounds { left: 0, top: (h - 3) as i32, right: w, bottom: h },
            Bounds { left: 0, top: 3, right: 3, bottom: (h - 3) as i32 },
            Bounds { left: (w - 3) as i32, top: 3, right: w, bottom: (h - 3) as i32 },
        ],
{
    let v = [
        Bounds { left: 0, top: 0, right: w, bottom: INDICATOR_BORDER },
        Bounds { left: 0, top: h - INDICATOR_BORDER, right: w, bottom: h },
        Bounds { left: 0, top: INDICATOR_BORDER, right: INDICATOR_BORDER, bottom: h - INDICATOR_BORDER },
        Bounds { left: w - INDICATOR_BORDER, top: INDICATOR_BORDER, right: w, bottom: h - INDICATOR_BORDER },
    ];
    assert(v@ =~= seq![
        Bounds { left: 0, top: 0, right: w, bottom: 3 },
        Bounds { left: 0, top: (h - 3) as i32, right: w, bottom: h },
        Bounds { left: 0, top: 3, right: 3, bottom: (h - 3) as i32 },
        Bounds { left: (w - 3) as i32, top: 3, right: w, bottom: (h - 3) as i32 },
    ]);
    v
}


fn pt_check(p: Point) -> (b: bool)
    ensures
        b == pt_ok(p),
{
    -0x1000_0000 <= p.x && p.x <= 0x1000_0000 && -0x1000_0000 <= p.y && p.y <= 0x1000_0000
}

fn rect_check(r: Rect) -> (b: bool)
    ensures
        b == rect_ok(r),
{
    -0x1000_0000 <= r.x && r.x <= 0x1000_0000 && -0x1000_0000 <= r.y && r.y <= 0x1000_0000 && r.width <= 0x2000_0000
        && r.height <= 0x2000_0000
}

fn opt_rect_check(r: Option<Rect>) -> (b: bool)
    ensures
        b == opt_rect_ok(r),
{
    match r {
        Some(r) => rect_check(r),
        None => true,
    }
}

impl OverlayState {
    /// Whether every coordinate lies within the screen bounds the overlay
    /// works in.
    pub fn in_bounds(&self) -> (b: bool)
        ensures
            b == self.wf(),
    {
        let vr = self.virtual_rect;
        let screen = -0x800_0000 <= vr.x && vr.x <= 0x800_0000 && -0x800_0000 <= vr.y && vr.y <= 0x800_0000
            && vr.width <= 0x800_0000 && vr.height <= 0x800_0000;
        let start = match self.start {
            Some(p) => pt_check(p),
            None => true,
        };
        screen && self.toolbar_size.0 <= 0x800_0000 && self.toolbar_size.1 <= 0x800_0000 && pt_check(self.current)
            && pt_check(self.drag_origin) && rect_check(self.orig_rect) && start && opt_rect_check(self.selection)
            && opt_rect_check(self.hover_win) && opt_rect_check(self.result)
    }
}

/// Whether an event's coordinates lie within the screen bounds.
pub fn event_in_bounds(e: OverlayEvent) -> (b: bool)
    ensures
        b == overlay_event_ok(e),
{
    match e {
        OverlayEvent::LeftDown { point } => pt_check(point),
        OverlayEvent::MouseMove { point, window } => pt_check(point) && opt_rect_check(window),
        OverlayEvent::LeftUp { point } => pt_check(point),
        OverlayEvent::SetCursor { point } => pt_check(point),
        _ => true,
    }
}

/// What a repaint draws around the active selection.
#[derive(Debug, Clone, Copy, PartialEq, Eq, Structural)]
pub struct SelectionPaint {
    /// The border's colour, as a GDI `COLORREF` value (`0x00BBGGRR`).
    pub border_color: u32,
    /// Whether the eight resize handles are drawn.
    pub handles: bool,
    /// Whether the toolbar's transparent hole is cut.
    pub toolbar_hole: bool,
}

/// Border colour while a new selection is being dragged out (amber).
pub const NEW_SELECTION_COLOR: u32 = 0x0000D7FF;
/// Border colour of a selection that is not being drawn (green).
pub const SELECTION_COLOR: u32 = 0x0000FF66;

/// The selection is up for editing and no new one is being drawn.
pub open spec fn editing_idle(s: OverlayState) -> bool {
    &&& s.interactive
    &&& s.phase == Phase::Editing
    &&& s.selection is Some
    &&& s.drag != Drag::NewSelection
}

impl OverlayState {
    /// How the active selection is drawn: amber while a new one is dragged
    /// out and green otherwise; handles while it is up for editing; the
    /// toolbar hole only while, in addition, nothing is being dragged.
    pub fn selection_paint(&self) -> (p: SelectionPaint)
        ensures
            p.border_color == (if self.drag == Drag::NewSelection { NEW_SELECTION_COLOR } else { SELECTION_COLOR }),
            p.handles == editing_idle(*self),
            p.toolbar_hole == (editing_idle(*self) && self.drag == Drag::Idle),
    {
        let is_new = match self.drag {
            Drag::NewSelection => true,
            _ => false,
        };
        let idle = self.interactive && match self.phase {
            Phase::Editing => true,
            Phase::Selecting => false,
        } && self.selection.is_some() && !is_new;
        let not_dragging = match self.drag {
            Drag::Idle => true,
            _ => false,
        };
        SelectionPaint {
            border_color: if is_new { NEW_SELECTION_COLOR } else { SELECTION_COLOR },
            handles: idle,
            toolbar_hole: idle && not_dragging,
        }
    }
}

/// The text of the size label: width, ` x `, height.
pub open spec fn size_label_text(width: u32, height: u32) -> Seq<char> {
    decimal_digits(width as nat) + seq![' ', 'x', ' '] + decimal_digits(height as nat)
}

/// The label is eight pixels per character wide, and at least 76.
pub open spec fn size_label_width(width: u32, height: u32) -> int {
    let n = size_label_text(width, height).len() as int * 8;
    if n > 76 {
        n
    } else {
        76
    }
}

/// The label's rectangle (left, top, right, bottom) for a selection with
/// the given left, top and bottom edges: above the selection, or below it
/// when above would start within four pixels of the top.
pub open spec fn size_label_rect(left: int, top: int, bottom: int, width: u32, height: u32) -> (int, int, int, int) {
    let right = left + size_label_width(width, height);
    if top - 27 < 4 {
        (left, bottom + 5, right, bottom + 27)
    } else {
        (left, top - 27, right, top - 5)
    }
}

/// The size label of a selection: its text and its rectangle.
pub fn size_label(left: i32, top: i32, bottom: i32, width: u32, height: u32) -> (r: (Vec<char>, (i32, i32, i32, i32)))
    requires
        top - 27 >= i32::MIN,
        left + size_label_width(width, height) <= i32::MAX,
        top - 27 < 4 ==> bottom + 27 <= i32::MAX,
    ensures
        r.0@ == size_label_text(width, height),
        (r.1.0 as int, r.1.1 as int, r.1.2 as int, r.1.3 as int) == size_label_rect(left as int, top as int, bottom as int, width, height),
{
    let mut text = decimal_chars(width);
    text.push(' ');
    text.push('x');
    text.push(' ');
    let mut hs = decimal_chars(height);
    text.append(&mut hs);
    proof {
        lemma_digits_short(width as nat);
        lemma_digits_short(height as nat);
        assert(text@ =~= size_label_text(width, height));
    }
    let n: i32 = (text.len() * 8) as i32;
    let label_width: i32 = if n > 76 { n } else { 76 };
    let right = left + label_width;
    let top_above = top - 27;
    if top_above < 4 {
        (text, (left, bottom + 5, right, bottom + 27))
    } else {
        (text, (left, top_above, right, top - 5))
    }
}

} // verus!
