//! Screen capture: the checks on a requested region, the conversion of a
//! captured BGRA bitmap into an RGBA image, the monitor list and its
//! fallback, and which windows are offered for capture. Reading pixels off
//! the screen lives outside this library.
use crate::api::{CapturedImage, Rect};
use crate::error::{Result, WinScreenError};
use crate::editor::push_char;
use crate::raster::{is_whitespace, is_whitespace_spec};
use vstd::arithmetic::div_mod::lemma_fundamental_div_mod_converse;
use vstd::prelude::*;
use vstd::string::StrSliceExecFns;

verus! {

/// A rectangle by its edges, as Windows reports window and monitor bounds.
#[derive(Debug, Clone, Copy, PartialEq, Eq, Structural)]
pub struct Bounds {
    pub left: i32,
    pub top: i32,
    pub right: i32,
    pub bottom: i32,
}


/// A display and where it sits on the virtual screen.
#[derive(Debug, Clone, Copy, PartialEq, Eq, Structural)]
pub struct MonitorInfo {
    pub id: u32,
    pub primary: bool,
    pub rect: Rect,
}

/// A top-level window offered for capture.
#[derive(Debug, Clone)]
pub struct WindowInfo {
    pub hwnd: isize,
    pub title: String,
    pub rect: Rect,
}

/// The size of a region to capture, as the signed sizes the screen copy
/// takes: both sides non-zero and within `i32`.
pub fn capture_size(rect: Rect) -> (r: Result<(i32, i32)>)
    ensures
        rect.width == 0 || rect.height == 0 || rect.width > i32::MAX || rect.height > i32::MAX
            ==> r == Err::<(i32, i32), WinScreenError>(WinScreenError::InvalidRect(rect)),
        !(rect.width == 0 || rect.height == 0 || rect.width > i32::MAX || rect.height > i32::MAX)
            ==> r == Ok::<(i32, i32), WinScreenError>((rect.width as i32, rect.height as i32)),
{
    if rect.width == 0 || rect.height == 0 {
        return Err(WinScreenError::InvalidRect(rect));
    }
    if rect.width > 0x7fff_ffff || rect.height > 0x7fff_ffff {
        return Err(WinScreenError::InvalidRect(rect));
    }
    Ok((rect.width as i32, rect.height as i32))
}

/// The bitmap size for printing a window of `width` x `height` pixels: a
/// side above `i32::MAX` is too large.
pub fn window_bitmap_size(width: u32, height: u32) -> (r: Result<(i32, i32)>)
    ensures
        width > i32::MAX || height > i32::MAX ==> r == Err::<(i32, i32), WinScreenError>(
            WinScreenError::ImageTooLarge,
        ),
        width <= i32::MAX && height <= i32::MAX ==> r == Ok::<(i32, i32), WinScreenError>(
            (width as i32, height as i32),
        ),
{
    if width > 0x7fff_ffff || height > 0x7fff_ffff {
        return Err(WinScreenError::ImageTooLarge);
    }
    Ok((width as i32, height as i32))
}

/// The bitmap size for copying a `width` x `height` region at
/// (`offset_x`, `offset_y`) out of an in-memory DC: a zero side is an
/// invalid rectangle, a side above `i32::MAX` is too large.
pub fn extract_size(offset_x: i32, offset_y: i32, width: u32, height: u32) -> (r: Result<(i32, i32)>)
    ensures
        width == 0 || height == 0 ==> r == Err::<(i32, i32), WinScreenError>(
            WinScreenError::InvalidRect(Rect { x: offset_x, y: offset_y, width, height }),
        ),
        width != 0 && height != 0 && (width > i32::MAX || height > i32::MAX)
            ==> r == Err::<(i32, i32), WinScreenError>(WinScreenError::ImageTooLarge),
        width != 0 && height != 0 && width <= i32::MAX && height <= i32::MAX
            ==> r == Ok::<(i32, i32), WinScreenError>((width as i32, height as i32)),
{
    if width == 0 || height == 0 {
        return Err(WinScreenError::InvalidRect(Rect { x: offset_x, y: offset_y, width, height }));
    }
    if width > 0x7fff_ffff || height > 0x7fff_ffff {
        return Err(WinScreenError::ImageTooLarge);
    }
    Ok((width as i32, height as i32))
}

/// The byte count of a `width` x `height` 32-bit bitmap, when it fits in
/// `u32`.
pub fn bitmap_len(width: u32, height: u32) -> (r: Result<usize>)
    ensures
        crate::api::rgba_len(width, height) <= u32::MAX ==> r == Ok::<usize, WinScreenError>(
            crate::api::rgba_len(width, height) as usize,
        ),
        crate::api::rgba_len(width, height) > u32::MAX ==> r == Err::<usize, WinScreenError>(WinScreenError::ImageTooLarge),
{
    let px = match width.checked_mul(height) {
        Some(p) => p.checked_mul(4),
        None => None,
    };
    match px {
        Some(n) => Ok(n as usize),
        None => {
            proof {
                if width as int * height as int <= u32::MAX {
                    assert(width as int * height as int * 4 > u32::MAX);
                } else {
                    assert(width as int * height as int * 4 > u32::MAX) by (nonlinear_arith)
                        requires
                            width as int * height as int > u32::MAX,
                    ;
                }
            }
            Err(WinScreenError::ImageTooLarge)
        },
    }
}

/// A BGRA byte `k` of the converted buffer: blue and red swap places and
/// alpha becomes opaque; bytes past the last whole pixel stay.
pub open spec fn bgra_at(src: Seq<u8>, k: int) -> u8 {
    if k >= (src.len() / 4) * 4 {
        src[k]
    } else if k % 4 == 0 {
        src[k + 2]
    } else if k % 4 == 2 {
        src[k - 2]
    } else if k % 4 == 3 {
        255
    } else {
        src[k]
    }
}

pub open spec fn bgra_to_rgba_spec(src: Seq<u8>) -> Seq<u8> {
    Seq::new(src.len(), |k: int| bgra_at(src, k))
}

/// Turns BGRA pixels, as the screen copy delivers them, into opaque RGBA.
pub fn bgra_to_rgba(bgra: Vec<u8>) -> (r: Vec<u8>)
    ensures
        r@ == bgra_to_rgba_spec(bgra@),
{
    let ghost src = bgra@;
    let mut px = bgra;
    let len = px.len();
    let n = len / 4;
    let mut i: usize = 0;
    while i < n
        invariant
            src.len() == px@.len(),
            len == src.len(),
            n == src.len() / 4,
            i <= n,
            forall|k: int| 0 <= k < i * 4 ==> #[trigger] px@[k] == bgra_at(src, k),
            forall|k: int| i * 4 <= k < px@.len() ==> #[trigger] px@[k] == src[k],
        decreases n - i,
    {
        proof {
            assert(i * 4 < len) by (nonlinear_arith)
                requires
                    i < n,
                    n == len / 4,
            ;
        }
        let o = i * 4;
        proof {
            assert(o + 4 <= px@.len()) by (nonlinear_arith)
                requires
                    o == i * 4,
                    i < n,
                    n == src.len() / 4,
                    src.len() == px@.len(),
            ;
            assert(n * 4 <= src.len()) by (nonlinear_arith)
                requires
                    n == src.len() / 4,
            ;
            lemma_fundamental_div_mod_converse(o as int, 4, i as int, 0);
            lemma_fundamental_div_mod_converse(o as int + 1, 4, i as int, 1);
            lemma_fundamental_div_mod_converse(o as int + 2, 4, i as int, 2);
            lemma_fundamental_div_mod_converse(o as int + 3, 4, i as int, 3);
            assert(o + 3 < (src.len() / 4) * 4) by (nonlinear_arith)
                requires
                    o == i * 4,
                    i < n,
                    n == src.len() / 4,
            ;
        }
        let b = px[o];
        let r = px[o + 2];
        px.set(o, r);
        px.set(o + 2, b);
        px.set(o + 3, 255);
        i = i + 1;
        proof {
            assert forall|k: int| 0 <= k < i * 4 implies #[trigger] px@[k] == bgra_at(src, k) by {
                if k >= o {
                    assert(k == o || k == o + 1 || k == o + 2 || k == o + 3);
                }
            }
        }
    }
    proof {
        assert(n * 4 == (src.len() / 4) * 4);
    }
    assert(px@ =~= bgra_to_rgba_spec(src));
    px
}

/// The image a screen copy of `width` x `height` BGRA pixels holds.
pub fn image_from_bgra(width: u32, height: u32, bgra: Vec<u8>) -> (r: Result<CapturedImage>)
    ensures
        r matches Ok(img) ==> img.wf() && img.width == width && img.height == height && img.rgba@
            == bgra_to_rgba_spec(bgra@),
        crate::api::rgba_len(width, height) <= u32::MAX && bgra@.len() == crate::api::rgba_len(width, height) ==> r is Ok,
        crate::api::rgba_len(width, height) > u32::MAX ==> r matches Err(WinScreenError::ImageTooLarge),
        crate::api::rgba_len(width, height) <= u32::MAX && bgra@.len() != crate::api::rgba_len(width, height)
            ==> r == Err::<CapturedImage, WinScreenError>(
            WinScreenError::InvalidImageBuffer {
                width,
                height,
                expected: crate::api::rgba_len(width, height) as usize,
                actual: bgra@.len() as usize,
            },
        ),
{
    let rgba = bgra_to_rgba(bgra);
    CapturedImage::new(width, height, rgba)
}

/// The monitor a display's bounds and flags describe; a reversed edge
/// pair gives a zero side.
pub open spec fn monitor_spec(id: u32, b: Bounds, flags: u32) -> MonitorInfo {
    MonitorInfo {
        id,
        primary: flags % 2 == 1,
        rect: Rect {
            x: b.left,
            y: b.top,
            width: (if b.right - b.left > 0 { b.right - b.left } else { 0 }) as u32,
            height: (if b.bottom - b.top > 0 { b.bottom - b.top } else { 0 }) as u32,
        },
    }
}

pub fn monitor_from_bounds(id: u32, b: Bounds, flags: u32) -> (m: MonitorInfo)
    ensures
        m == monitor_spec(id, b, flags),
{
    let w = b.right as i64 - b.left as i64;
    let h = b.bottom as i64 - b.top as i64;
    let primary = flags & 1 != 0;
    assert(primary == (flags % 2 == 1)) by (bit_vector)
        requires
            primary == (flags & 1u32 != 0),
    ;
    MonitorInfo {
        id,
        primary,
        rect: Rect {
            x: b.left,
            y: b.top,
            width: if w > 0 { w as u32 } else { 0 },
            height: if h > 0 { h as u32 } else { 0 },
        },
    }
}

/// The id the `i`-th enumerated monitor gets: its place in enumeration
/// order, counted in `u32`.
pub open spec fn monitor_id(i: int) -> u32 {
    (i % 0x1_0000_0000) as u32
}

/// The enumerated displays, each as its bounds and flags, numbered in
/// enumeration order from 0.
pub open spec fn numbered_monitors(displays: Seq<(Bounds, u32)>) -> Seq<MonitorInfo> {
    Seq::new(displays.len(), |i: int| monitor_spec(monitor_id(i), displays[i].0, displays[i].1))
}

/// The monitor list from what enumeration reported: the displays numbered
/// 0, 1, ... in enumeration order, followed by the whole virtual screen as
/// primary monitor 0 when enumeration failed or found no display.
pub fn monitor_list(displays: &Vec<(Bounds, u32)>, enumerated: bool, virtual_rect: Rect) -> (r: Vec<MonitorInfo>)
    ensures
        enumerated && displays@.len() > 0 ==> r@ == numbered_monitors(displays@),
        !enumerated || displays@.len() == 0 ==> r@ == numbered_monitors(displays@).push(
            MonitorInfo { id: 0, primary: true, rect: virtual_rect },
        ),
{
    let mut found: Vec<MonitorInfo> = Vec::new();
    let mut id: u32 = 0;
    let mut i: usize = 0;
    while i < displays.len()
        invariant
            i <= displays@.len(),
            id as int == i as int % 0x1_0000_0000,
            found@ == numbered_monitors(displays@.take(i as int)),
        decreases displays@.len() - i,
    {
        let (b, flags) = displays[i];
        found.push(monitor_from_bounds(id, b, flags));
        proof {
            assert(found@ =~= numbered_monitors(displays@.take(i + 1)));
        }
        id = id.wrapping_add(1);
        i = i + 1;
    }
    proof {
        assert(displays@.take(i as int) =~= displays@);
    }
    monitors_with_fallback(found, enumerated, virtual_rect)
}

/// The monitors found, or the whole virtual screen as the primary monitor
/// when enumeration failed or found none.
pub fn monitors_with_fallback(found: Vec<MonitorInfo>, enumerated: bool, virtual_rect: Rect) -> (r: Vec<MonitorInfo>)
    ensures
        !enumerated || found@.len() == 0 ==> r@ == found@.push(MonitorInfo { id: 0, primary: true, rect: virtual_rect }),
        enumerated && found@.len() > 0 ==> r@ == found@,
{
    let mut monitors = found;
    if !enumerated || monitors.len() == 0 {
        monitors.push(MonitorInfo { id: 0, primary: true, rect: virtual_rect });
    }
    monitors
}

/// The rectangles of the monitors, in order.
pub fn monitor_rects(monitors: &Vec<MonitorInfo>) -> (r: Vec<Rect>)
    ensures
        r@.len() == monitors@.len(),
        forall|i: int| 0 <= i < r@.len() ==> #[trigger] r@[i] == monitors@[i].rect,
{
    let mut out: Vec<Rect> = Vec::new();
    let mut i: usize = 0;
    while i < monitors.len()
        invariant
            i <= monitors@.len(),
            out@.len() == i,
            forall|k: int| 0 <= k < i ==> #[trigger] out@[k] == monitors@[k].rect,
        decreases monitors@.len() - i,
    {
        out.push(monitors[i].rect);
        i = i + 1;
    }
    out
}

/// The rectangle of a monitor by its index in the display list.
pub fn monitor_rect(rects: &Vec<Rect>, id: u32) -> (r: Result<Rect>)
    ensures
        (id as int) < rects@.len() ==> r == Ok::<Rect, WinScreenError>(rects@[id as int]),
        (id as int) >= rects@.len() ==> r == Err::<Rect, WinScreenError>(
            WinScreenError::NotImplemented { feature: "monitor id outside available display list" },
        ),
{
    if (id as usize) < rects.len() {
        Ok(rects[id as usize])
    } else {
        Err(WinScreenError::NotImplemented { feature: "monitor id outside available display list" })
    }
}

/// Whether the frame bounds the compositor reports can be used: the call
/// succeeded and the rectangle is not empty.
pub fn frame_bounds_usable(ok: bool, b: Bounds) -> (u: bool)
    ensures
        u == (ok && b.right > b.left && b.bottom > b.top),
{
    ok && b.right > b.left && b.bottom > b.top
}

/// The size of a window to capture; a reversed edge pair is refused with
/// the window's corner.
pub fn window_capture_size(b: Bounds) -> (r: Result<(u32, u32)>)
    ensures
        b.right >= b.left && b.bottom >= b.top ==> r == Ok::<(u32, u32), WinScreenError>(
            ((b.right - b.left) as u32, (b.bottom - b.top) as u32),
        ),
        !(b.right >= b.left && b.bottom >= b.top) ==> r == Err::<(u32, u32), WinScreenError>(
            WinScreenError::InvalidRect(Rect { x: b.left, y: b.top, width: 0, height: 0 }),
        ),
{
    let w = b.right as i64 - b.left as i64;
    let h = b.bottom as i64 - b.top as i64;
    if w < 0 || h < 0 {
        return Err(WinScreenError::InvalidRect(Rect { x: b.left, y: b.top, width: 0, height: 0 }));
    }
    Ok((w as u32, h as u32))
}

pub open spec fn intersects_spec(b: Bounds, screen: Rect) -> bool {
    &&& b.left < screen.x + screen.width
    &&& b.right > screen.x
    &&& b.top < screen.y + screen.height
    &&& b.bottom > screen.y
}

/// Whether a window's bounds reach into the virtual screen.
pub fn rect_intersects_virtual_screen(b: Bounds, screen: Rect) -> (r: bool)
    ensures
        r == intersects_spec(b, screen),
{
    let right = screen.x as i64 + screen.width as i64;
    let bottom = screen.y as i64 + screen.height as i64;
    (b.left as i64) < right && b.right > screen.x && (b.top as i64) < bottom && b.bottom > screen.y
}

/// Whether all characters of `s` before `i` are whitespace.
pub open spec fn ws_before(s: Seq<char>, i: int) -> bool {
    forall|k: int| 0 <= k < i ==> is_whitespace_spec(#[trigger] s[k])
}

/// Whether all characters of `s` from `i` on are whitespace.
pub open spec fn ws_from(s: Seq<char>, i: int) -> bool {
    forall|k: int| i <= k < s.len() ==> is_whitespace_spec(#[trigger] s[k])
}

/// `s` without leading and trailing whitespace.
pub open spec fn trim_spec(s: Seq<char>) -> Seq<char> {
    if ws_from(s, 0) {
        Seq::empty()
    } else {
        let a = choose|a: int| 0 <= a < s.len() && !is_whitespace_spec(s[a]) && ws_before(s, a);
        let b = choose|b: int| 0 <= b < s.len() && !is_whitespace_spec(s[b]) && ws_from(s, b + 1);
        s.subrange(a, b + 1)
    }
}

/// Removes leading and trailing whitespace.
pub fn trim_whitespace(text: &str) -> (r: String)
    ensures
        r@ == trim_spec(text@),
{
    let n = text.unicode_len();
    let mut a: usize = 0;
    while a < n && is_whitespace(text.get_char(a))
        invariant
            n == text@.len(),
            a <= n,
            ws_before(text@, a as int),
        decreases n - a,
    {
        a = a + 1;
    }
    let mut out = String::new();
    if a == n {
        proof {
            assert(ws_from(text@, 0));
        }
        return out;
    }
    let mut b: usize = n - 1;
    while b > a && is_whitespace(text.get_char(b))
        invariant
            n == text@.len(),
            a < n,
            a <= b < n,
            !is_whitespace_spec(text@[a as int]),
            ws_from(text@, b + 1),
        decreases b,
    {
        b = b - 1;
    }
    assert(!is_whitespace_spec(text@[b as int]));
    let mut i: usize = a;
    while i <= b
        invariant
            n == text@.len(),
            a <= i <= b + 1,
            b < n,
            out@ == text@.subrange(a as int, i as int),
        decreases b + 1 - i,
    {
        push_char(&mut out, text.get_char(i));
        i = i + 1;
        assert(out@ =~= text@.subrange(a as int, i as int));
    }
    proof {
        let s = text@;
        assert(!ws_from(s, 0));
        let ca = choose|x: int| 0 <= x < s.len() && !is_whitespace_spec(s[x]) && ws_before(s, x);
        let cb = choose|x: int| 0 <= x < s.len() && !is_whitespace_spec(s[x]) && ws_from(s, x + 1);
        assert(0 <= a < s.len() && !is_whitespace_spec(s[a as int]) && ws_before(s, a as int));
        assert(0 <= b < s.len() && !is_whitespace_spec(s[b as int]) && ws_from(s, b + 1));
        if ca < a {
            assert(is_whitespace_spec(s[ca]));
        }
        if ca > a {
            assert(is_whitespace_spec(s[a as int]));
        }
        if cb < b {
            assert(is_whitespace_spec(s[b as int]));
        }
        if cb > b {
            assert(is_whitespace_spec(s[cb]));
        }
        assert(ca == a && cb == b);
    }
    out
}

/// The window entry a top-level window gives, if it is offered: visible,
/// not minimised, titled with something besides whitespace, with readable
/// bounds of positive size that reach into the virtual screen.
pub open spec fn window_entry_spec(hwnd: isize, visible: bool, minimized: bool, title: Seq<char>, bounds: Option<Bounds>, screen: Rect) -> Option<(isize, Seq<char>, Rect)> {
    match bounds {
        Some(b) => if visible && !minimized && trim_spec(title).len() > 0 && b.right - b.left > 0 && b.bottom - b.top > 0
            && intersects_spec(b, screen) {
            Some((hwnd, trim_spec(title), Rect { x: b.left, y: b.top, width: (b.right - b.left) as u32, height: (b.bottom - b.top) as u32 }))
        } else {
            None
        },
        None => None,
    }
}

/// Decides whether a window is offered for capture and builds its entry.
pub fn window_entry(hwnd: isize, visible: bool, minimized: bool, title: &str, bounds: Option<Bounds>, screen: Rect) -> (r: Option<WindowInfo>)
    ensures
        window_entry_spec(hwnd, visible, minimized, title@, bounds, screen) matches Some((h, t, rect)) ==> (r matches Some(w)
            && w.hwnd == h && w.title@ == t && w.rect == rect),
        window_entry_spec(hwnd, visible, minimized, title@, bounds, screen) is None ==> r is None,
{
    if !visible || minimized {
        return None;
    }
    let t = trim_whitespace(title);
    if t.unicode_len() == 0 {
        return None;
    }
    let b = match bounds {
        Some(b) => b,
        None => return None,
    };
    let w = b.right as i64 - b.left as i64;
    let h = b.bottom as i64 - b.top as i64;
    if w <= 0 || h <= 0 {
        return None;
    }
    if !rect_intersects_virtual_screen(b, screen) {
        return None;
    }
    Some(WindowInfo { hwnd, title: t, rect: Rect { x: b.left, y: b.top, width: w as u32, height: h as u32 } })
}

} // verus!
