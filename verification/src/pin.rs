//! Desktop pins: the registry of open pin windows and the decisions of a
//! pin window (dragging, resetting its size, opacity steps, closing). The
//! windows themselves, their bitmaps and the zoom arithmetic in floating
//! point live outside this library.
use crate::api::{Pin, PinHandle, PinInfo, Size};
use crate::error::{Result, WinScreenError};
use std::collections::HashMap;
use vstd::arithmetic::div_mod::lemma_fundamental_div_mod_converse;
use vstd::prelude::*;
use vstd::std_specs::hash::spec_hash_map_iter;
use vstd::std_specs::iter::IteratorSpec;

verus! {

broadcast use vstd::std_specs::hash::group_hash_axioms;

/// An open pin window: its handle and the size of its image.
#[derive(Debug, Clone, Copy, PartialEq, Eq, Structural)]
pub struct PinEntry {
    pub hwnd: usize,
    pub size: Size,
}

/// The open pins, by id.
#[derive(Debug)]
pub struct PinRegistry {
    entries: HashMap<u64, PinEntry>,
}

impl View for PinRegistry {
    type V = Map<u64, PinEntry>;

    closed spec fn view(&self) -> Map<u64, PinEntry> {
        self.entries@
    }
}

impl PinRegistry {
    /// No pins open.
    pub fn new() -> (r: PinRegistry)
        ensures
            r@ == Map::<u64, PinEntry>::empty(),
    {
        PinRegistry { entries: HashMap::new() }
    }

    /// Records a pin window once it is up.
    pub fn insert(&mut self, id: u64, entry: PinEntry)
        ensures
            final(self)@ == old(self)@.insert(id, entry),
    {
        self.entries.insert(id, entry);
    }

    /// Forgets a pin and hands back its entry, if it was open.
    pub fn remove(&mut self, id: u64) -> (r: Option<PinEntry>)
        ensures
            final(self)@ == old(self)@.remove(id),
            r == (if old(self)@.contains_key(id) { Some(old(self)@[id]) } else { None }),
    {
        self.entries.remove(&id)
    }

    /// The entry of an open pin.
    pub fn get(&self, id: u64) -> (r: Option<PinEntry>)
        ensures
            r == (if self@.contains_key(id) { Some(self@[id]) } else { None }),
    {
        match self.entries.get(&id) {
            Some(e) => Some(*e),
            None => None,
        }
    }

    /// The entry of the pin whose opacity is to change; an unknown id is
    /// refused.
    pub fn entry_for_opacity(&self, id: u64) -> (r: Result<PinEntry>)
        ensures
            self@.contains_key(id) ==> r == Ok::<PinEntry, WinScreenError>(self@[id]),
            !self@.contains_key(id) ==> r == Err::<PinEntry, WinScreenError>(
                WinScreenError::NotImplemented { feature: "pin handle not found" },
            ),
    {
        match self.get(id) {
            Some(e) => Ok(e),
            None => Err(WinScreenError::NotImplemented { feature: "pin handle not found" }),
        }
    }

    /// One line per open pin, in no particular order.
    pub fn list(&self) -> (r: Vec<PinInfo>)
        ensures
            lists_pins(self@, r@),
    {
        let mut out: Vec<PinInfo> = Vec::new();
        let ghost all = spec_hash_map_iter(&self.entries).remaining();
        for pair in it: self.entries.iter()
            invariant
                it.seq() == all,
                out@.len() == it.index(),
                forall|i: int| #![trigger out@[i]] 0 <= i < out@.len() ==> out@[i].id == *all[i].0 && out@[i].size == all[i].1.size,
        {
            let (id, e) = pair;
            out.push(PinInfo { id: *id, size: e.size });
        }
        proof {
            let m = self.entries@;
            assert(out@.len() == all.len());
            assert forall|k: u64| #[trigger] m.contains_key(k) implies exists|i: int| 0 <= i < out@.len() && out@[i].id == k by {
                assert(all.contains((&k, &m[k])));
                let i = choose|i: int| 0 <= i < all.len() && all[i] == (&k, &m[k]);
                assert(out@[i].id == k);
            }
        }
        out
    }
}

/// `infos` names every open pin exactly once, with its image size.
pub open spec fn lists_pins(m: Map<u64, PinEntry>, infos: Seq<PinInfo>) -> bool {
    &&& infos.len() == m.dom().len()
    &&& forall|i: int| 0 <= i < infos.len() ==> #[trigger] m.contains_key(infos[i].id) && m[infos[i].id].size == infos[i].size
    &&& forall|k: u64| #[trigger] m.contains_key(k) ==> exists|i: int| 0 <= i < infos.len() && infos[i].id == k
}

/// The open pins.
pub fn list_pins(registry: &PinRegistry) -> (r: Result<Vec<PinInfo>>)
    ensures
        r matches Ok(v) && lists_pins(registry@, v@),
{
    Ok(registry.list())
}

/// Records a new pin once its window has reported back: `size` is the
/// size of the pinned image, `startup` is `None` when the window did not
/// report in time, else what its thread reported (the window's handle, or
/// why it could not open).
pub fn pin_image(registry: &mut PinRegistry, handle: PinHandle, size: Size, startup: Option<Result<usize>>) -> (r: Result<PinHandle>)
    ensures
        startup is None ==> r == Err::<PinHandle, WinScreenError>(
            WinScreenError::NotImplemented { feature: "pin window startup timed out" },
        ) && final(registry)@ == old(registry)@,
        startup matches Some(Err(e)) ==> r == Err::<PinHandle, WinScreenError>(e) && final(registry)@ == old(registry)@,
        startup matches Some(Ok(hwnd)) ==> r == Ok::<PinHandle, WinScreenError>(handle) && final(registry)@ == old(
            registry,
        )@.insert(handle.spec_id(), PinEntry { hwnd, size }),
{
    match startup {
        None => Err(WinScreenError::NotImplemented { feature: "pin window startup timed out" }),
        Some(Err(e)) => Err(e),
        Some(Ok(hwnd)) => {
            registry.insert(handle.id(), PinEntry { hwnd, size });
            Ok(handle)
        },
    }
}

/// Takes a pin out of the registry and says which window to close; closing
/// a pin that is not open does nothing.
pub fn close_pin(registry: &mut PinRegistry, id: u64) -> (r: Option<PinEntry>)
    ensures
        final(registry)@ == old(registry)@.remove(id),
        r == (if old(registry)@.contains_key(id) { Some(old(registry)@[id]) } else { None }),
{
    registry.remove(id)
}

impl PinHandle {
    /// Closes this pin: see [`close_pin`].
    pub fn close(&self, registry: &mut PinRegistry) -> (r: Option<PinEntry>)
        ensures
            final(registry)@ == old(registry)@.remove(self.spec_id()),
            r == (if old(registry)@.contains_key(self.spec_id()) { Some(old(registry)@[self.spec_id()]) } else { None }),
    {
        close_pin(registry, self.id())
    }
}

impl Pin {
    /// The open pins: see [`list_pins`].
    pub fn list(registry: &PinRegistry) -> (r: Result<Vec<PinInfo>>)
        ensures
            r matches Ok(v) && lists_pins(registry@, v@),
    {
        list_pins(registry)
    }
}

/// A listing taken after a pin is recorded names it with its image size;
/// one taken after it is closed does not name it.
pub proof fn lemma_listing_follows_registry(m: Map<u64, PinEntry>, id: u64, entry: PinEntry, after_pin: Seq<PinInfo>, after_close: Seq<PinInfo>)
    requires
        lists_pins(m.insert(id, entry), after_pin),
        lists_pins(m.remove(id), after_close),
    ensures
        exists|i: int| 0 <= i < after_pin.len() && after_pin[i].id == id && after_pin[i].size == entry.size,
        forall|i: int, j: int| 0 <= i < after_pin.len() && 0 <= j < after_pin.len() && after_pin[i].id == id
            && after_pin[j].id == id ==> i == j,
        forall|i: int| 0 <= i < after_close.len() ==> after_close[i].id != id,
{
    assert forall|i: int, j: int| 0 <= i < after_pin.len() && 0 <= j < after_pin.len() && after_pin[i].id == id
        && after_pin[j].id == id implies i == j by {
        if i != j {
            if i < j {
                lemma_listing_ids_distinct(m.insert(id, entry), after_pin, i, j);
            } else {
                lemma_listing_ids_distinct(m.insert(id, entry), after_pin, j, i);
            }
        }
    }
    assert(m.insert(id, entry).contains_key(id));
    let i = choose|i: int| 0 <= i < after_pin.len() && after_pin[i].id == id;
    assert(m.insert(id, entry).contains_key(after_pin[i].id));
    assert forall|k: int| 0 <= k < after_close.len() implies after_close[k].id != id by {
        assert(m.remove(id).contains_key(after_close[k].id));
    }
}

/// No pin is named twice in a listing.
pub proof fn lemma_listing_ids_distinct(m: Map<u64, PinEntry>, infos: Seq<PinInfo>, i: int, j: int)
    requires
        lists_pins(m, infos),
        0 <= i < j < infos.len(),
    ensures
        infos[i].id != infos[j].id,
{
    broadcast use vstd::seq_lib::group_seq_properties;
    let ids = infos.map_values(|p: PinInfo| p.id);
    assert(ids.to_set() =~= m.dom()) by {
        assert forall|k: u64| ids.to_set().contains(k) <==> m.dom().contains(k) by {
            if m.dom().contains(k) {
                let n = choose|n: int| 0 <= n < infos.len() && infos[n].id == k;
                assert(ids[n] == k);
            }
            if ids.to_set().contains(k) {
                assert(ids.contains(k));
                let n = choose|n: int| 0 <= n < ids.len() && ids[n] == k;
                assert(m.contains_key(infos[n].id));
            }
        }
    }
    ids.lemma_no_dup_set_cardinality();
    assert(ids[i] == infos[i].id && ids[j] == infos[j].id);
}

/// A pin removed from the registry is gone, and the others stay.
pub proof fn lemma_remove_forgets(m: Map<u64, PinEntry>, id: u64, other: u64)
    requires
        other != id,
    ensures
        !m.remove(id).contains_key(id),
        m.contains_key(other) ==> m.remove(id).contains_key(other) && m.remove(id)[other] == m[other],
{
}


/// How much one Ctrl+wheel notch changes a pin's opacity.
pub const WHEEL_OPACITY_STEP: i16 = 18;

/// The lowest opacity the wheel reaches.
pub const WHEEL_MIN_OPACITY: i16 = 38;

/// The lowest opacity a request can set.
pub const REQUEST_MIN_OPACITY: usize = 26;

/// The wheel rotation carried in the high word of a wheel message's
/// `wparam`, as a signed 16-bit value.
pub open spec fn wheel_delta_spec(wparam: usize) -> int {
    let v = (wparam as int / 0x1_0000) % 0x1_0000;
    if v >= 0x8000 {
        v - 0x1_0000
    } else {
        v
    }
}

/// Whether the Ctrl flag (0x0008) is set in a mouse message's `wparam`.
pub open spec fn ctrl_pressed_spec(wparam: usize) -> bool {
    (wparam as int / 8) % 2 == 1
}

pub fn wheel_delta(wparam: usize) -> (d: i16)
    ensures
        d == wheel_delta_spec(wparam),
{
    let v: usize = (wparam >> 16usize) & 0xffffusize;
    assert(v == (wparam as int / 0x1_0000) % 0x1_0000) by (bit_vector)
        requires
            v == (wparam >> 16usize) & 0xffffusize,
    ;
    if v >= 0x8000 {
        (v as i32 - 0x1_0000) as i16
    } else {
        v as i16
    }
}

pub fn ctrl_pressed(wparam: usize) -> (b: bool)
    ensures
        b == ctrl_pressed_spec(wparam),
{
    let b = (wparam & 8usize) != 0;
    assert(((wparam & 8usize) != 0) == ((wparam / 8) % 2 == 1)) by (bit_vector);
    b
}

pub open spec fn clamp_int(v: int, lo: int, hi: int) -> int {
    if v < lo {
        lo
    } else if v > hi {
        hi
    } else {
        v
    }
}

/// The opacity after one wheel notch with Ctrl held: a step up for a
/// forward notch, else a step down, kept between 38 and 255.
pub open spec fn wheel_opacity_spec(opacity: u8, delta: i16) -> u8 {
    let step = if delta > 0 { 18int } else { -18int };
    clamp_int(opacity + step, 38, 255) as u8
}

pub fn wheel_opacity(opacity: u8, delta: i16) -> (o: u8)
    ensures
        o == wheel_opacity_spec(opacity, delta),
{
    let step: i16 = if delta > 0 { WHEEL_OPACITY_STEP } else { -WHEEL_OPACITY_STEP };
    let next: i16 = opacity as i16 + step;
    let c: i16 = if next < WHEEL_MIN_OPACITY { WHEEL_MIN_OPACITY } else if next > 255 { 255 } else { next };
    c as u8
}

/// The opacity a request asks for, kept between 26 and 255.
pub open spec fn requested_alpha_spec(wparam: usize) -> u8 {
    clamp_int(wparam as int, 26, 255) as u8
}

pub fn requested_alpha(wparam: usize) -> (a: u8)
    ensures
        a == requested_alpha_spec(wparam),
{
    let c = if wparam < REQUEST_MIN_OPACITY { REQUEST_MIN_OPACITY } else if wparam > 255 { 255 } else { wparam };
    c as u8
}

/// A pin window's own state apart from its image.
#[derive(Debug, Clone, Copy, PartialEq, Eq, Structural)]
pub struct PinWindowState {
    pub id: u64,
    /// The window size it opened with, restored by a double click.
    pub initial_width: i32,
    pub initial_height: i32,
    pub opacity: u8,
}

/// An input event of a pin window.
#[derive(Debug, Clone, Copy, PartialEq, Eq, Structural)]
pub enum PinEvent {
    LeftDown,
    DoubleClick,
    Wheel { wparam: usize },
    RightDown,
    /// A request to set the opacity, carried in `wparam`.
    SetOpacity { wparam: usize },
    Destroyed,
    Other,
}

/// What a pin window has to do after an event.
#[derive(Debug, Clone, Copy, PartialEq, Eq, Structural)]
pub enum PinAction {
    /// Let the user drag the window by its body.
    BeginDrag,
    /// Resize the window.
    Resize { width: i32, height: i32 },
    /// Apply a new opacity.
    SetAlpha(u8),
    /// Scale the window by one wheel notch in the given direction.
    Zoom { delta: i16 },
    /// Close the window.
    Close,
    /// The window is gone: drop the pin from the registry and end its loop.
    Unregister(u64),
    /// Not the pin's: hand it to the default handler.
    PassThrough,
}

/// What one event does to a pin window.
pub open spec fn pin_next(s: PinWindowState, ev: PinEvent) -> (PinWindowState, PinAction) {
    match ev {
        PinEvent::LeftDown => (s, PinAction::BeginDrag),
        PinEvent::DoubleClick => (s, PinAction::Resize { width: s.initial_width, height: s.initial_height }),
        PinEvent::Wheel { wparam } => {
            let delta = wheel_delta_spec(wparam) as i16;
            if ctrl_pressed_spec(wparam) {
                let o = wheel_opacity_spec(s.opacity, delta);
                (PinWindowState { opacity: o, ..s }, PinAction::SetAlpha(o))
            } else {
                (s, PinAction::Zoom { delta })
            }
        },
        PinEvent::RightDown => (s, PinAction::Close),
        PinEvent::SetOpacity { wparam } => {
            let a = requested_alpha_spec(wparam);
            (PinWindowState { opacity: a, ..s }, PinAction::SetAlpha(a))
        },
        PinEvent::Destroyed => (s, PinAction::Unregister(s.id)),
        PinEvent::Other => (s, PinAction::PassThrough),
    }
}

impl PinWindowState {
    /// A fully opaque pin window of the given size.
    pub fn new(id: u64, width: i32, height: i32) -> (s: PinWindowState)
        ensures
            s == (PinWindowState { id, initial_width: width, initial_height: height, opacity: 255 }),
    {
        PinWindowState { id, initial_width: width, initial_height: height, opacity: 255 }
    }

    /// Applies one event and says what the window has to do.
    pub fn handle(&mut self, ev: PinEvent) -> (act: PinAction)
        ensures
            (*final(self), act) == pin_next(*old(self), ev),
    {
        match ev {
            PinEvent::LeftDown => PinAction::BeginDrag,
            PinEvent::DoubleClick => PinAction::Resize { width: self.initial_width, height: self.initial_height },
            PinEvent::Wheel { wparam } => {
                let delta = wheel_delta(wparam);
                if ctrl_pressed(wparam) {
                    let o = wheel_opacity(self.opacity, delta);
                    self.opacity = o;
                    PinAction::SetAlpha(o)
                } else {
                    PinAction::Zoom { delta }
                }
            },
            PinEvent::RightDown => PinAction::Close,
            PinEvent::SetOpacity { wparam } => {
                let a = requested_alpha(wparam);
                self.opacity = a;
                PinAction::SetAlpha(a)
            },
            PinEvent::Destroyed => PinAction::Unregister(self.id),
            PinEvent::Other => PinAction::PassThrough,
        }
    }
}

/// Opacity stays between 26 and 255 whatever arrives, and the wheel never
/// takes it below 38 unless it already was.
pub proof fn lemma_opacity_bounds(s: PinWindowState, ev: PinEvent)
    requires
        26 <= s.opacity,
    ensures
        26 <= pin_next(s, ev).0.opacity,
        ev is Wheel ==> pin_next(s, ev).0.opacity >= 38 || pin_next(s, ev).0.opacity == s.opacity,
        pin_next(s, ev).0.id == s.id,
        pin_next(s, ev).0.initial_width == s.initial_width,
        pin_next(s, ev).0.initial_height == s.initial_height,
{
}

/// A notch up then a notch down with Ctrl held gives back the opacity,
/// away from the bounds.
pub proof fn lemma_wheel_up_down(opacity: u8, up: i16, down: i16)
    requires
        56 <= opacity <= 237,
        up > 0,
        down <= 0,
    ensures
        wheel_opacity_spec(wheel_opacity_spec(opacity, up), down) == opacity,
{
}


/// RGBA pixels with red and blue swapped, as a device-independent bitmap
/// holds them; bytes past the last whole pixel stay.
pub open spec fn swap_rb_at(src: Seq<u8>, k: int) -> u8 {
    if k >= (src.len() / 4) * 4 {
        src[k]
    } else if k % 4 == 0 {
        src[k + 2]
    } else if k % 4 == 2 {
        src[k - 2]
    } else {
        src[k]
    }
}

/// For every whole pixel, the converted buffer holds the source's blue byte
/// first and its red byte third; green and alpha stay in place.
pub proof fn lemma_swap_rb_pixels(src: Seq<u8>, p: int)
    requires
        0 <= p < src.len() / 4,
    ensures
        swap_rb_at(src, 4 * p) == src[4 * p + 2],
        swap_rb_at(src, 4 * p + 1) == src[4 * p + 1],
        swap_rb_at(src, 4 * p + 2) == src[4 * p],
        swap_rb_at(src, 4 * p + 3) == src[4 * p + 3],
{
    lemma_fundamental_div_mod_converse(4 * p, 4, p, 0);
    lemma_fundamental_div_mod_converse(4 * p + 1, 4, p, 1);
    lemma_fundamental_div_mod_converse(4 * p + 2, 4, p, 2);
    lemma_fundamental_div_mod_converse(4 * p + 3, 4, p, 3);
    assert(4 * p + 3 < (src.len() / 4) * 4) by (nonlinear_arith)
        requires
            0 <= p < src.len() / 4,
    ;
}

/// The pixels a pin window's bitmap is filled with: red and blue swapped.
pub fn rgba_to_bgra(rgba: Vec<u8>) -> (r: Vec<u8>)
    ensures
        r@.len() == rgba@.len(),
        forall|k: int| 0 <= k < rgba@.len() ==> #[trigger] r@[k] == swap_rb_at(rgba@, k),
{
    let ghost src = rgba@;
    let mut px = rgba;
    let len = px.len();
    let n = len / 4;
    let mut i: usize = 0;
    while i < n
        invariant
            src.len() == px@.len(),
            len == src.len(),
            n == src.len() / 4,
            i <= n,
            forall|k: int| 0 <= k < i * 4 ==> #[trigger] px@[k] == swap_rb_at(src, k),
            forall|k: int| i * 4 <= k < px@.len() ==> #[trigger] px@[k] == src[k],
        decreases n - i,
    {
        proof {
            assert(i * 4 + 3 < n * 4 && n * 4 <= len) by (nonlinear_arith)
                requires
                    i < n,
                    n == len / 4,
            ;
            lemma_fundamental_div_mod_converse(i * 4 as int, 4, i as int, 0);
            lemma_fundamental_div_mod_converse(i * 4 as int + 1, 4, i as int, 1);
            lemma_fundamental_div_mod_converse(i * 4 as int + 2, 4, i as int, 2);
            lemma_fundamental_div_mod_converse(i * 4 as int + 3, 4, i as int, 3);
        }
        let o = i * 4;
        let a = px[o];
        let c = px[o + 2];
        px.set(o, c);
        px.set(o + 2, a);
        i = i + 1;
        proof {
            assert forall|k: int| 0 <= k < i * 4 implies #[trigger] px@[k] == swap_rb_at(src, k) by {
                if k >= o {
                    assert(k == o || k == o + 1 || k == o + 2 || k == o + 3);
                }
            }
        }
    }
    px
}

} // verus!
