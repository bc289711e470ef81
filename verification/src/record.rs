//! Screen recording: which monitor and crop a request records, the registry
//! of running recordings, and the audio path (channel remixing, mixing two
//! sources, 16-bit little-endian framing). The capture session, the encoder
//! and the audio devices live outside this library.
use crate::api::{AudioOptions, Rect, Recorder, RecorderBuilder, RecordingHandle, RecordingOptions, RecordingTarget};
use crate::capture::Bounds;
use crate::error::{Result, WinScreenError};
use std::collections::HashMap;
use std::collections::VecDeque;
use vstd::prelude::*;
use vstd::arithmetic::div_mod::lemma_fundamental_div_mod_converse;

verus! {

broadcast use vstd::std_specs::hash::group_hash_axioms;

/// The audio format the encoder receives: 48 kHz stereo.
pub const TARGET_SAMPLE_RATE: u32 = 48_000;
pub const TARGET_CHANNELS: u32 = 2;

pub open spec fn max_int(a: int, b: int) -> int {
    if a > b {
        a
    } else {
        b
    }
}

pub open spec fn min_int(a: int, b: int) -> int {
    if a < b {
        a
    } else {
        b
    }
}

/// The area two rectangles, given by their edges, have in common.
pub open spec fn overlap_spec(ax1: int, ay1: int, ax2: int, ay2: int, bx1: int, by1: int, bx2: int, by2: int) -> int {
    let ix = max_int(min_int(ax2, bx2) - max_int(ax1, bx1), 0);
    let iy = max_int(min_int(ay2, by2) - max_int(ay1, by1), 0);
    ix * iy
}

/// Whether the spans of the intersection can be computed in `i32`.
pub open spec fn overlap_fits(ax1: int, ay1: int, ax2: int, ay2: int, bx1: int, by1: int, bx2: int, by2: int) -> bool {
    &&& i32::MIN <= min_int(ax2, bx2) - max_int(ax1, bx1) <= i32::MAX
    &&& i32::MIN <= min_int(ay2, by2) - max_int(ay1, by1) <= i32::MAX
}

/// Area of the intersection of two rectangles given by their left, top,
/// right and bottom edges; 0 when they are disjoint.
pub fn overlap_area(ax1: i32, ay1: i32, ax2: i32, ay2: i32, bx1: i32, by1: i32, bx2: i32, by2: i32) -> (a: i64)
    requires
        overlap_fits(ax1 as int, ay1 as int, ax2 as int, ay2 as int, bx1 as int, by1 as int, bx2 as int, by2 as int),
    ensures
        a == overlap_spec(ax1 as int, ay1 as int, ax2 as int, ay2 as int, bx1 as int, by1 as int, bx2 as int, by2 as int),
        a >= 0,
{
    let r = if ax2 < bx2 { ax2 as i64 } else { bx2 as i64 };
    let l = if ax1 > bx1 { ax1 as i64 } else { bx1 as i64 };
    let b = if ay2 < by2 { ay2 as i64 } else { by2 as i64 };
    let t = if ay1 > by1 { ay1 as i64 } else { by1 as i64 };
    let ix: i64 = if r - l > 0 { r - l } else { 0 };
    let iy: i64 = if b - t > 0 { b - t } else { 0 };
    assert(0 <= ix * iy <= 0x7fff_ffff * 0x7fff_ffff) by (nonlinear_arith)
        requires
            0 <= ix <= 0x7fff_ffff,
            0 <= iy <= 0x7fff_ffff,
    ;
    ix * iy
}

/// The right edge of a rectangle, as `x + width` computed in `i32`.
pub open spec fn rect_right(r: Rect) -> int {
    r.x + (r.width as i32)
}

pub open spec fn rect_bottom(r: Rect) -> int {
    r.y + (r.height as i32)
}

/// Whether the far edges of a rectangle can be computed in `i32`.
pub open spec fn edges_fit(r: Rect) -> bool {
    &&& i32::MIN <= rect_right(r) <= i32::MAX
    &&& i32::MIN <= rect_bottom(r) <= i32::MAX
}

/// Whether the overlap of a region with a monitor can be computed in `i32`.
pub open spec fn region_overlap_fits(r: Rect, m: Bounds) -> bool {
    overlap_fits(r.x as int, r.y as int, rect_right(r), rect_bottom(r), m.left as int, m.top as int, m.right as int, m.bottom as int)
}

pub open spec fn region_overlap(r: Rect, m: Bounds) -> int {
    overlap_spec(r.x as int, r.y as int, rect_right(r), rect_bottom(r), m.left as int, m.top as int, m.right as int, m.bottom as int)
}

/// Among the first `n` monitors (those whose bounds are known), the first
/// one with the largest positive overlap, and that overlap.
pub open spec fn best_monitor(ms: Seq<Option<Bounds>>, r: Rect, n: int) -> Option<(int, int)>
    decreases n,
{
    if n <= 0 {
        None
    } else {
        let prev = best_monitor(ms, r, n - 1);
        match ms[n - 1] {
            Some(m) => {
                let a = region_overlap(r, m);
                let cur = match prev {
                    Some(p) => p.1,
                    None => 0,
                };
                if a > cur {
                    Some((n - 1, a))
                } else {
                    prev
                }
            },
            None => prev,
        }
    }
}

/// Where a region falls on a monitor: the crop's left, top, right and
/// bottom in monitor-local pixels, clamped to the monitor.
pub open spec fn crop_spec(r: Rect, m: Bounds) -> (int, int, int, int) {
    let mw = m.right - m.left;
    let mh = m.bottom - m.top;
    let sx = max_int(r.x - m.left, 0);
    let sy = max_int(r.y - m.top, 0);
    let ex = min_int(rect_right(r) - m.left, mw);
    let ey = min_int(rect_bottom(r) - m.top, mh);
    (sx, sy, ex, ey)
}

/// The monitor a region is recorded from: the one it overlaps most, with
/// the crop in that monitor's pixels and the crop's size.
pub open spec fn region_plan_spec(r: Rect, ms: Seq<Option<Bounds>>) -> core::result::Result<(usize, (u32, u32, u32, u32), u32, u32), WinScreenError> {
    match best_monitor(ms, r, ms.len() as int) {
        None => Err(WinScreenError::NotImplemented { feature: "no monitor intersects the requested region" }),
        Some((i, _)) => {
            let (sx, sy, ex, ey) = crop_spec(r, ms[i].unwrap());
            let w = max_int(ex - sx, 0);
            let h = max_int(ey - sy, 0);
            if w == 0 || h == 0 {
                Err(WinScreenError::NotImplemented { feature: "region does not intersect any monitor" })
            } else {
                Ok((i as usize, (sx as u32, sy as u32, ex as u32, ey as u32), w as u32, h as u32))
            }
        },
    }
}

proof fn lemma_best_monitor_bounds(ms: Seq<Option<Bounds>>, r: Rect, n: int)
    requires
        0 <= n <= ms.len(),
    ensures
        best_monitor(ms, r, n) matches Some((i, a)) ==> 0 <= i < n && ms[i] is Some && a > 0 && a == region_overlap(r, ms[i].unwrap()),
    decreases n,
{
    if n > 0 {
        lemma_best_monitor_bounds(ms, r, n - 1);
    }
}

/// Whether a region's far edges, and its overlap with a monitor (when the
/// monitor's bounds are known), can be computed in `i32`.
pub fn region_fits(rect: Rect, monitor: Option<Bounds>) -> (b: bool)
    ensures
        b == (edges_fit(rect) && (monitor matches Some(m) ==> region_overlap_fits(rect, m))),
{
    let right = rect.x as i64 + (rect.width as i32) as i64;
    let bottom = rect.y as i64 + (rect.height as i32) as i64;
    if right < -0x8000_0000 || right > 0x7fff_ffff || bottom < -0x8000_0000 || bottom > 0x7fff_ffff {
        return false;
    }
    match monitor {
        None => true,
        Some(m) => {
            let ix = (if right < m.right as i64 { right } else { m.right as i64 }) - (if (rect.x as i64) > (m.left as i64) { rect.x as i64 } else { m.left as i64 });
            let iy = (if bottom < m.bottom as i64 { bottom } else { m.bottom as i64 }) - (if (rect.y as i64) > (m.top as i64) { rect.y as i64 } else { m.top as i64 });
            -0x8000_0000 <= ix && ix <= 0x7fff_ffff && -0x8000_0000 <= iy && iy <= 0x7fff_ffff
        },
    }
}

/// Picks the monitor for a region recording. `monitors` holds, in
/// enumeration order, each monitor's bounds where they could be read.
pub fn find_monitor_for_region(rect: Rect, monitors: &Vec<Option<Bounds>>) -> (res: Result<(usize, (u32, u32, u32, u32), u32, u32)>)
    requires
        edges_fit(rect),
        forall|i: int| 0 <= i < monitors@.len() && #[trigger] monitors@[i] is Some ==> region_overlap_fits(rect, monitors@[i].unwrap()),
    ensures
        res == region_plan_spec(rect, monitors@),
{
    let rx1 = rect.x;
    let ry1 = rect.y;
    let rx2 = rect.x + rect.width as i32;
    let ry2 = rect.y + rect.height as i32;
    let mut best: Option<(usize, i64)> = None;
    let mut i: usize = 0;
    while i < monitors.len()
        invariant
            i <= monitors@.len(),
            rx1 == rect.x,
            ry1 == rect.y,
            forall|i: int| 0 <= i < monitors@.len() && #[trigger] monitors@[i] is Some ==> region_overlap_fits(rect, monitors@[i].unwrap()),
            rx2 == rect_right(rect),
            ry2 == rect_bottom(rect),
            match best {
                Some((bi, ba)) => best_monitor(monitors@, rect, i as int) == Some((bi as int, ba as int)),
                None => best_monitor(monitors@, rect, i as int).is_none(),
            },
        decreases monitors@.len() - i,
    {
        if let Some(m) = monitors[i] {
            let area = overlap_area(rx1, ry1, rx2, ry2, m.left, m.top, m.right, m.bottom);
            let cur: i64 = match best {
                Some((_, a)) => a,
                None => 0,
            };
            if area > cur {
                best = Some((i, area));
            }
        }
        i = i + 1;
    }
    proof {
        lemma_best_monitor_bounds(monitors@, rect, monitors@.len() as int);
    }
    let (bi, _) = match best {
        Some(b) => b,
        None => {
            return Err(WinScreenError::NotImplemented { feature: "no monitor intersects the requested region" });
        },
    };
    let m = monitors[bi].unwrap();
    proof {
        let a = region_overlap(rect, m);
        assert(a > 0);
        let ix = max_int(min_int(rx2 as int, m.right as int) - max_int(rx1 as int, m.left as int), 0);
        let iy = max_int(min_int(ry2 as int, m.bottom as int) - max_int(ry1 as int, m.top as int), 0);
        assert(a == ix * iy);
        if ix <= 0 || iy <= 0 {
            assert(ix == 0 || iy == 0);
            assert(ix * iy == 0) by (nonlinear_arith)
                requires
                    ix == 0 || iy == 0,
            ;
        }
        assert(ix > 0 && iy > 0);
    }
    let mx = m.left as i64;
    let my = m.top as i64;
    let mw = m.right as i64 - mx;
    let mh = m.bottom as i64 - my;
    let sx: i64 = if rx1 as i64 - mx > 0 { rx1 as i64 - mx } else { 0 };
    let sy: i64 = if ry1 as i64 - my > 0 { ry1 as i64 - my } else { 0 };
    let ex: i64 = if rx2 as i64 - mx < mw { rx2 as i64 - mx } else { mw };
    let ey: i64 = if ry2 as i64 - my < mh { ry2 as i64 - my } else { mh };
    let cw: i64 = if ex - sx > 0 { ex - sx } else { 0 };
    let ch: i64 = if ey - sy > 0 { ey - sy } else { 0 };
    if cw == 0 || ch == 0 {
        return Err(WinScreenError::NotImplemented { feature: "region does not intersect any monitor" });
    }
    Ok((bi, (sx as u32, sy as u32, ex as u32, ey as u32), cw as u32, ch as u32))
}

/// What a recording request captures, once resolved.
#[derive(Debug, Clone, Copy, PartialEq, Eq, Structural)]
pub enum RecordingSource {
    /// The primary monitor, whole.
    Primary,
    /// A monitor by 0-based index, whole.
    Monitor(u32),
    /// A region, cropped from the monitor it overlaps most.
    Region(Rect),
}

/// Resolves a recording target; window recording is not offered.
pub fn recording_source(target: RecordingTarget) -> (r: Result<RecordingSource>)
    ensures
        target == RecordingTarget::Fullscreen ==> r == Ok::<RecordingSource, WinScreenError>(RecordingSource::Primary),
        target matches RecordingTarget::Monitor(i) ==> r == Ok::<RecordingSource, WinScreenError>(RecordingSource::Monitor(i)),
        target matches RecordingTarget::Region(rect) ==> r == Ok::<RecordingSource, WinScreenError>(RecordingSource::Region(rect)),
        target is Window ==> r == Err::<RecordingSource, WinScreenError>(
            WinScreenError::NotImplemented { feature: "recording target (Fullscreen, Monitor, and Region are supported)" },
        ),
{
    match target {
        RecordingTarget::Fullscreen => Ok(RecordingSource::Primary),
        RecordingTarget::Monitor(i) => Ok(RecordingSource::Monitor(i)),
        RecordingTarget::Region(rect) => Ok(RecordingSource::Region(rect)),
        RecordingTarget::Window(_) => Err(
            WinScreenError::NotImplemented { feature: "recording target (Fullscreen, Monitor, and Region are supported)" },
        ),
    }
}

/// How the audio of a recording is gathered.
#[derive(Debug, Clone, Copy, PartialEq, Eq, Structural)]
pub enum AudioPlan {
    /// No audio track.
    Silent,
    /// One source, relayed as it comes: system loopback or microphone.
    Single { system: bool },
    /// System loopback and microphone, mixed.
    Mixed,
}

/// The audio plan for the requested sources.
pub fn audio_plan(audio: AudioOptions) -> (p: AudioPlan)
    ensures
        !audio.system && !audio.microphone ==> p == AudioPlan::Silent,
        audio.system && audio.microphone ==> p == AudioPlan::Mixed,
        audio.system != audio.microphone ==> p == (AudioPlan::Single { system: audio.system }),
{
    if !audio.system && !audio.microphone {
        AudioPlan::Silent
    } else if audio.system && audio.microphone {
        AudioPlan::Mixed
    } else {
        AudioPlan::Single { system: audio.system }
    }
}

/// A running recording: whether it is paused, and what else its owner
/// keeps for it.
#[derive(Debug)]
pub struct RecordingSlot<E> {
    pub paused: bool,
    pub entry: E,
}

/// The running recordings, by id.
#[derive(Debug)]
pub struct RecordingRegistry<E> {
    slots: HashMap<u64, RecordingSlot<E>>,
}

impl<E> RecordingRegistry<E> {
    /// The running recordings and whether each is paused.
    pub closed spec fn paused_map(&self) -> Map<u64, bool> {
        Map::new(|k: u64| self.slots@.contains_key(k), |k: u64| self.slots@[k].paused)
    }

    /// What each running recording carries.
    pub closed spec fn entries(&self) -> Map<u64, E> {
        Map::new(|k: u64| self.slots@.contains_key(k), |k: u64| self.slots@[k].entry)
    }

    pub fn new() -> (r: Self)
        ensures
            r.paused_map() == Map::<u64, bool>::empty(),
            r.entries() == Map::<u64, E>::empty(),
    {
        let r = RecordingRegistry { slots: HashMap::new() };
        assert(r.paused_map() =~= Map::<u64, bool>::empty());
        assert(r.entries() =~= Map::<u64, E>::empty());
        r
    }

    /// Whether a recording is paused, if it is running.
    pub fn is_paused(&self, id: u64) -> (r: Option<bool>)
        ensures
            r == (if self.paused_map().contains_key(id) { Some(self.paused_map()[id]) } else { None }),
    {
        match self.slots.get(&id) {
            Some(s) => Some(s.paused),
            None => None,
        }
    }

    /// What a running recording carries.
    pub fn get(&self, id: u64) -> (r: Option<&E>)
        ensures
            r matches Some(e) ==> self.entries().contains_key(id) && *e == self.entries()[id],
            r is None ==> !self.entries().contains_key(id),
    {
        match self.slots.get(&id) {
            Some(s) => Some(&s.entry),
            None => None,
        }
    }
}

/// Records a recording that has started, running.
pub fn register<E>(registry: &mut RecordingRegistry<E>, id: u64, entry: E)
    ensures
        final(registry).paused_map() == old(registry).paused_map().insert(id, false),
        final(registry).entries() == old(registry).entries().insert(id, entry),
{
    let ghost e = entry;
    registry.slots.insert(id, RecordingSlot { paused: false, entry });
    assert(final(registry).paused_map() =~= old(registry).paused_map().insert(id, false));
    assert(final(registry).entries() =~= old(registry).entries().insert(id, e));
}

fn set_paused<E>(registry: &mut RecordingRegistry<E>, id: u64, paused: bool) -> (found: bool)
    ensures
        found == old(registry).paused_map().contains_key(id),
        found ==> final(registry).paused_map() == old(registry).paused_map().insert(id, paused),
        !found ==> final(registry).paused_map() == old(registry).paused_map(),
        final(registry).entries() == old(registry).entries(),
{
    match registry.slots.remove(&id) {
        Some(slot) => {
            let ghost e = slot.entry;
            registry.slots.insert(id, RecordingSlot { paused, entry: slot.entry });
            assert(final(registry).paused_map() =~= old(registry).paused_map().insert(id, paused));
            assert(final(registry).entries() =~= old(registry).entries());
            true
        },
        None => {
            assert(final(registry).paused_map() =~= old(registry).paused_map());
            assert(final(registry).entries() =~= old(registry).entries());
            false
        },
    }
}

/// Pauses a running recording; an unknown id is refused.
pub fn pause<E>(registry: &mut RecordingRegistry<E>, id: u64) -> (r: Result<()>)
    ensures
        old(registry).paused_map().contains_key(id) ==> r is Ok && final(registry).paused_map()
            == old(registry).paused_map().insert(id, true),
        !old(registry).paused_map().contains_key(id) ==> r == Err::<(), WinScreenError>(
            WinScreenError::NotImplemented { feature: "recording id not found (pause)" },
        ) && final(registry).paused_map() == old(registry).paused_map(),
        final(registry).entries() == old(registry).entries(),
{
    if set_paused(registry, id, true) {
        Ok(())
    } else {
        Err(WinScreenError::NotImplemented { feature: "recording id not found (pause)" })
    }
}

/// Resumes a paused recording; an unknown id is refused.
pub fn resume<E>(registry: &mut RecordingRegistry<E>, id: u64) -> (r: Result<()>)
    ensures
        old(registry).paused_map().contains_key(id) ==> r is Ok && final(registry).paused_map()
            == old(registry).paused_map().insert(id, false),
        !old(registry).paused_map().contains_key(id) ==> r == Err::<(), WinScreenError>(
            WinScreenError::NotImplemented { feature: "recording id not found (resume)" },
        ) && final(registry).paused_map() == old(registry).paused_map(),
        final(registry).entries() == old(registry).entries(),
{
    if set_paused(registry, id, false) {
        Ok(())
    } else {
        Err(WinScreenError::NotImplemented { feature: "recording id not found (resume)" })
    }
}

/// Takes a recording out of the registry so that it can be finished; an
/// unknown id is refused.
pub fn stop<E>(registry: &mut RecordingRegistry<E>, id: u64) -> (r: Result<E>)
    ensures
        old(registry).entries().contains_key(id) ==> r == Ok::<E, WinScreenError>(old(registry).entries()[id]),
        !old(registry).entries().contains_key(id) ==> r == Err::<E, WinScreenError>(
            WinScreenError::NotImplemented { feature: "recording id not found (stop)" },
        ),
        final(registry).entries() == old(registry).entries().remove(id),
        final(registry).paused_map() == old(registry).paused_map().remove(id),
{
    let removed = registry.slots.remove(&id);
    assert(final(registry).entries() =~= old(registry).entries().remove(id));
    assert(final(registry).paused_map() =~= old(registry).paused_map().remove(id));
    match removed {
        Some(slot) => Ok(slot.entry),
        None => Err(WinScreenError::NotImplemented { feature: "recording id not found (stop)" }),
    }
}


/// Records a recording once its capture has started: `started` is what
/// starting the capture gave. This is the path of a host that runs the
/// capture session itself; the request-only entry point,
/// [`crate::recording::start_recording`], is not implemented yet.
pub fn start_recording<E>(registry: &mut RecordingRegistry<E>, handle: RecordingHandle, started: Result<E>) -> (r: Result<RecordingHandle>)
    ensures
        started matches Err(e) ==> r == Err::<RecordingHandle, WinScreenError>(e) && final(registry).entries() == old(
            registry,
        ).entries() && final(registry).paused_map() == old(registry).paused_map(),
        started matches Ok(entry) ==> r == Ok::<RecordingHandle, WinScreenError>(handle) && final(registry).entries()
            == old(registry).entries().insert(handle.spec_id(), entry) && final(registry).paused_map() == old(
            registry,
        ).paused_map().insert(handle.spec_id(), false),
{
    match started {
        Ok(entry) => {
            register(registry, handle.id(), entry);
            Ok(handle)
        },
        Err(e) => Err(e),
    }
}

/// Pauses a recording: see [`pause`].
pub fn pause_recording<E>(registry: &mut RecordingRegistry<E>, id: u64) -> (r: Result<()>)
    ensures
        old(registry).paused_map().contains_key(id) ==> r is Ok && final(registry).paused_map()
            == old(registry).paused_map().insert(id, true),
        !old(registry).paused_map().contains_key(id) ==> r == Err::<(), WinScreenError>(
            WinScreenError::NotImplemented { feature: "recording id not found (pause)" },
        ) && final(registry).paused_map() == old(registry).paused_map(),
        final(registry).entries() == old(registry).entries(),
{
    pause(registry, id)
}

/// Resumes a recording: see [`resume`].
pub fn resume_recording<E>(registry: &mut RecordingRegistry<E>, id: u64) -> (r: Result<()>)
    ensures
        old(registry).paused_map().contains_key(id) ==> r is Ok && final(registry).paused_map()
            == old(registry).paused_map().insert(id, false),
        !old(registry).paused_map().contains_key(id) ==> r == Err::<(), WinScreenError>(
            WinScreenError::NotImplemented { feature: "recording id not found (resume)" },
        ) && final(registry).paused_map() == old(registry).paused_map(),
        final(registry).entries() == old(registry).entries(),
{
    resume(registry, id)
}

/// Takes a recording out to be finished: see [`stop`].
pub fn stop_recording<E>(registry: &mut RecordingRegistry<E>, id: u64) -> (r: Result<E>)
    ensures
        old(registry).entries().contains_key(id) ==> r == Ok::<E, WinScreenError>(old(registry).entries()[id]),
        !old(registry).entries().contains_key(id) ==> r == Err::<E, WinScreenError>(
            WinScreenError::NotImplemented { feature: "recording id not found (stop)" },
        ),
        final(registry).entries() == old(registry).entries().remove(id),
        final(registry).paused_map() == old(registry).paused_map().remove(id),
{
    stop(registry, id)
}

/// What registering a recording under `handle` does, given how starting
/// its capture went: a failure is passed on and the registry stays as it
/// was; a started capture is registered, running and not paused.
pub open spec fn start_recorded<E>(
    before: RecordingRegistry<E>,
    after: RecordingRegistry<E>,
    handle: RecordingHandle,
    started: Result<E>,
    r: Result<RecordingHandle>,
) -> bool {
    match started {
        Err(e) => r == Err::<RecordingHandle, WinScreenError>(e) && after.entries() == before.entries()
            && after.paused_map() == before.paused_map(),
        Ok(entry) => r == Ok::<RecordingHandle, WinScreenError>(handle) && after.entries() == before.entries().insert(
            handle.spec_id(),
            entry,
        ) && after.paused_map() == before.paused_map().insert(handle.spec_id(), false),
    }
}

impl Recorder {
    /// Starts this recording: `start_capture` starts the capture session for
    /// the request, and the recording is registered under `handle` once it
    /// has (see [`start_recording`]).
    pub fn start<E, F: FnOnce(&RecordingOptions) -> Result<E>>(
        self,
        registry: &mut RecordingRegistry<E>,
        handle: RecordingHandle,
        start_capture: F,
    ) -> (r: Result<RecordingHandle>)
        requires
            call_requires(start_capture, (&self.spec_options(),)),
        ensures
            exists|started: Result<E>|
                call_ensures(start_capture, (&self.spec_options(),), started) && start_recorded(
                    *old(registry),
                    *final(registry),
                    handle,
                    started,
                    r,
                ),
    {
        let ghost before = *registry;
        let started = start_capture(self.options());
        let ghost s = started;
        let r = start_recording(registry, handle, started);
        assert(call_ensures(start_capture, (&self.spec_options(),), s));
        assert(start_recorded(before, *registry, handle, s, r));
        r
    }
}

impl RecorderBuilder {
    /// Builds the recorder and starts it: without an output the build's
    /// error comes back, no capture is started and the registry stays as it
    /// was; otherwise as [`Recorder::start`] on the built request.
    pub fn start<E, F: FnOnce(&RecordingOptions) -> Result<E>>(
        self,
        registry: &mut RecordingRegistry<E>,
        handle: RecordingHandle,
        start_capture: F,
    ) -> (r: Result<RecordingHandle>)
        requires
            forall|o: RecordingOptions| call_requires(start_capture, (&o,)),
        ensures
            self.spec_output() is None ==> r == Err::<RecordingHandle, WinScreenError>(
                WinScreenError::NotImplemented { feature: "recording output default path" },
            ) && final(registry).entries() == old(registry).entries() && final(registry).paused_map() == old(
                registry,
            ).paused_map(),
            self.spec_output() is Some ==> exists|started: Result<E>|
                call_ensures(
                    start_capture,
                    (
                        &(RecordingOptions {
                            target: self.spec_target(),
                            output: self.spec_output().unwrap(),
                            audio: self.spec_audio(),
                        }),
                    ),
                    started,
                ) && start_recorded(*old(registry), *final(registry), handle, started, r),
    {
        match self.build() {
            Err(e) => Err(e),
            Ok(recorder) => recorder.start(registry, handle, start_capture),
        }
    }
}

impl RecordingHandle {
    /// Pauses this recording.
    pub fn pause<E>(&self, registry: &mut RecordingRegistry<E>) -> (r: Result<()>)
        ensures
            old(registry).paused_map().contains_key(self.spec_id()) ==> r is Ok && final(registry).paused_map()
                == old(registry).paused_map().insert(self.spec_id(), true),
            !old(registry).paused_map().contains_key(self.spec_id()) ==> r == Err::<(), WinScreenError>(
                WinScreenError::NotImplemented { feature: "recording id not found (pause)" },
            ) && final(registry).paused_map() == old(registry).paused_map(),
            final(registry).entries() == old(registry).entries(),
    {
        pause_recording(registry, self.id())
    }

    /// Resumes this recording.
    pub fn resume<E>(&self, registry: &mut RecordingRegistry<E>) -> (r: Result<()>)
        ensures
            old(registry).paused_map().contains_key(self.spec_id()) ==> r is Ok && final(registry).paused_map()
                == old(registry).paused_map().insert(self.spec_id(), false),
            !old(registry).paused_map().contains_key(self.spec_id()) ==> r == Err::<(), WinScreenError>(
                WinScreenError::NotImplemented { feature: "recording id not found (resume)" },
            ) && final(registry).paused_map() == old(registry).paused_map(),
            final(registry).entries() == old(registry).entries(),
    {
        resume_recording(registry, self.id())
    }

    /// Takes this recording out of the registry to be finished.
    pub fn stop<E>(self, registry: &mut RecordingRegistry<E>) -> (r: Result<E>)
        ensures
            old(registry).entries().contains_key(self.spec_id()) ==> r == Ok::<E, WinScreenError>(
                old(registry).entries()[self.spec_id()],
            ),
            !old(registry).entries().contains_key(self.spec_id()) ==> r == Err::<E, WinScreenError>(
                WinScreenError::NotImplemented { feature: "recording id not found (stop)" },
            ),
            final(registry).entries() == old(registry).entries().remove(self.spec_id()),
            final(registry).paused_map() == old(registry).paused_map().remove(self.spec_id()),
    {
        stop_recording(registry, self.id())
    }
}

/// One sample of the remixed stream: frame `j`, channel `c`. Mono is
/// duplicated into both stereo channels; otherwise the first channels are
/// kept and missing ones are silent.
pub open spec fn remix_at(s: Seq<i16>, src: int, dst: int, j: int, c: int) -> i16 {
    if dst == 2 && src == 1 {
        s[j]
    } else if c < src {
        s[j * src + c]
    } else {
        0
    }
}

/// A stream of `src`-channel frames as `dst`-channel frames; a trailing
/// partial frame is dropped.
pub open spec fn remix_spec(s: Seq<i16>, src: int, dst: int) -> Seq<i16> {
    if src == dst {
        s
    } else {
        Seq::new(((s.len() as int / src) * dst) as nat, |k: int| remix_at(s, src, dst, k / dst, k % dst))
    }
}

/// Converts interleaved samples from `src_ch` to `dst_ch` channels.
pub fn remix_channels(samples: Vec<i16>, src_ch: usize, dst_ch: usize) -> (r: Vec<i16>)
    requires
        src_ch > 0 || src_ch == dst_ch,
    ensures
        r@ == remix_spec(samples@, src_ch as int, dst_ch as int),
{
    if src_ch == dst_ch {
        return samples;
    }
    let frames = samples.len() / src_ch;
    let ghost s = samples@;
    let ghost src = src_ch as int;
    let ghost dst = dst_ch as int;
    let mut out: Vec<i16> = Vec::new();
    if dst_ch == 2 && src_ch == 1 {
        let mut k: usize = 0;
        while k < samples.len()
            invariant
                s == samples@,
                dst_ch == 2,
                src_ch == 1,
                k <= samples@.len(),
                out@.len() == 2 * k,
                forall|m: int| 0 <= m < out@.len() ==> #[trigger] out@[m] == remix_at(s, 1, 2, m / 2, m % 2),
            decreases samples@.len() - k,
        {
            let v = samples[k];
            proof {
                lemma_fundamental_div_mod_converse(2 * k as int, 2, k as int, 0);
                lemma_fundamental_div_mod_converse(2 * k as int + 1, 2, k as int, 1);
            }
            out.push(v);
            out.push(v);
            k = k + 1;
        }
        assert((s.len() as int / src) * dst == 2 * s.len()) by (nonlinear_arith)
            requires
                src == 1,
                dst == 2,
        ;
        assert(out@ =~= remix_spec(s, src, dst));
        return out;
    }
    let mut i: usize = 0;
    while i < frames
        invariant
            s == samples@,
            src == src_ch as int,
            dst == dst_ch as int,
            src_ch > 0,
            src_ch != dst_ch,
            !(dst_ch == 2 && src_ch == 1),
            frames == samples@.len() as int / (src_ch as int),
            samples@.len() <= usize::MAX,
            i <= frames,
            out@.len() == i * dst_ch,
            forall|m: int| 0 <= m < out@.len() ==> #[trigger] out@[m] == remix_at(s, src, dst, m / dst, m % dst),
        decreases frames - i,
    {
        proof {
            assert((i as int + 1) * src_ch <= frames * src_ch) by (nonlinear_arith)
                requires
                    i < frames,
            ;
            assert(frames * src_ch <= samples@.len()) by (nonlinear_arith)
                requires
                    frames == samples@.len() as int / (src_ch as int),
                    src_ch > 0,
            ;
            assert(i * src_ch <= (i as int + 1) * src_ch) by (nonlinear_arith);
        }
        let base: usize = i * src_ch;
        let mut ch: usize = 0;
        while ch < dst_ch
            invariant
                s == samples@,
                src == src_ch as int,
                dst == dst_ch as int,
                src_ch > 0,
                !(dst_ch == 2 && src_ch == 1),
                i < frames,
                (i as int + 1) * src_ch <= samples@.len(),
                samples@.len() <= usize::MAX,
                base == i * src_ch,
                ch <= dst_ch,
                out@.len() == i * dst_ch + ch,
                forall|m: int| 0 <= m < out@.len() ==> #[trigger] out@[m] == remix_at(s, src, dst, m / dst, m % dst),
            decreases dst_ch - ch,
        {
            proof {
                lemma_fundamental_div_mod_converse(i * dst_ch + ch, dst, i as int, ch as int);
            }
            let v: i16 = if ch < src_ch {
                proof {
                    assert(i * src_ch + ch < samples@.len()) by (nonlinear_arith)
                        requires
                            ch < src_ch,
                            (i as int + 1) * src_ch <= samples@.len(),
                    ;
                }
                samples[base + ch]
            } else {
                0
            };
            out.push(v);
            ch = ch + 1;
        }
        proof {
            assert((i as int + 1) * dst_ch == i * dst_ch + dst_ch) by (nonlinear_arith);
        }
        i = i + 1;
    }
    assert(out@ =~= remix_spec(s, src, dst));
    out
}

/// The average of two samples, rounded toward zero.
pub open spec fn mix_spec(s: i16, m: i16) -> i16 {
    let t = s + m;
    (if t >= 0 { t / 2 } else { -((-t) / 2) }) as i16
}

pub fn mix_sample(s: i16, m: i16) -> (r: i16)
    ensures
        r == mix_spec(s, m),
{
    let t = s as i32 + m as i32;
    let h: i32 = if t >= 0 { t / 2 } else { -((-t) / 2) };
    let c: i32 = if h < -32768 { -32768 } else if h > 32767 { 32767 } else { h };
    c as i16
}

/// Buffers of system and microphone samples waiting to be mixed.
#[derive(Debug)]
pub struct AudioMixer {
    system: VecDeque<i16>,
    microphone: VecDeque<i16>,
}

impl View for AudioMixer {
    type V = (Seq<i16>, Seq<i16>);

    closed spec fn view(&self) -> (Seq<i16>, Seq<i16>) {
        (self.system@, self.microphone@)
    }
}

/// The samples of two streams mixed pairwise over their common length.
pub open spec fn mixed_spec(sys: Seq<i16>, mic: Seq<i16>, n: int) -> Seq<i16> {
    Seq::new(n as nat, |i: int| mix_spec(sys[i], mic[i]))
}

impl AudioMixer {
    pub fn new() -> (m: AudioMixer)
        ensures
            m@ == (Seq::<i16>::empty(), Seq::<i16>::empty()),
    {
        AudioMixer { system: VecDeque::new(), microphone: VecDeque::new() }
    }

    fn append(q: &mut VecDeque<i16>, samples: &Vec<i16>)
        ensures
            final(q)@ == old(q)@ + samples@,
    {
        let mut i: usize = 0;
        while i < samples.len()
            invariant
                i <= samples@.len(),
                q@ == old(q)@ + samples@.subrange(0, i as int),
            decreases samples@.len() - i,
        {
            q.push_back(samples[i]);
            i = i + 1;
            assert(samples@.subrange(0, i as int) =~= samples@.subrange(0, i - 1) + seq![samples@[i - 1]]);
        }
        assert(samples@.subrange(0, samples@.len() as int) =~= samples@);
    }

    /// Queues system-audio samples.
    pub fn push_system(&mut self, samples: &Vec<i16>)
        ensures
            final(self)@ == (old(self)@.0 + samples@, old(self)@.1),
    {
        Self::append(&mut self.system, samples);
    }

    /// Queues microphone samples.
    pub fn push_microphone(&mut self, samples: &Vec<i16>)
        ensures
            final(self)@ == (old(self)@.0, old(self)@.1 + samples@),
    {
        Self::append(&mut self.microphone, samples);
    }

    /// Mixes as many samples as both queues hold, removing them.
    pub fn take_mixed(&mut self) -> (r: Vec<i16>)
        ensures
            ({
                let n = min_int(old(self)@.0.len() as int, old(self)@.1.len() as int);
                &&& r@ == mixed_spec(old(self)@.0, old(self)@.1, n)
                &&& final(self)@.0 == old(self)@.0.skip(n)
                &&& final(self)@.1 == old(self)@.1.skip(n)
            }),
    {
        let ghost sys0 = self.system@;
        let ghost mic0 = self.microphone@;
        let avail = if self.system.len() < self.microphone.len() { self.system.len() } else { self.microphone.len() };
        let mut out: Vec<i16> = Vec::new();
        let mut i: usize = 0;
        while i < avail
            invariant
                avail == min_int(sys0.len() as int, mic0.len() as int),
                i <= avail,
                self.system@ == sys0.skip(i as int),
                self.microphone@ == mic0.skip(i as int),
                out@ == mixed_spec(sys0, mic0, i as int),
            decreases avail - i,
        {
            let s = match self.system.pop_front() {
                Some(v) => v,
                None => 0,
            };
            let m = match self.microphone.pop_front() {
                Some(v) => v,
                None => 0,
            };
            out.push(mix_sample(s, m));
            i = i + 1;
            assert(self.system@ =~= sys0.skip(i as int));
            assert(self.microphone@ =~= mic0.skip(i as int));
            assert(out@ =~= mixed_spec(sys0, mic0, i as int));
        }
        out
    }
}

/// The two bytes of a sample, least significant first.
pub open spec fn le_low(s: i16) -> u8 {
    ((if s < 0 { s + 0x1_0000 } else { s as int }) % 256) as u8
}

pub open spec fn le_high(s: i16) -> u8 {
    ((if s < 0 { s + 0x1_0000 } else { s as int }) / 256) as u8
}

/// Samples as 16-bit little-endian bytes.
pub open spec fn le_bytes_spec(samples: Seq<i16>) -> Seq<u8> {
    Seq::new((2 * samples.len()) as nat, |k: int| if k % 2 == 0 { le_low(samples[k / 2]) } else { le_high(samples[k / 2]) })
}

/// Frames samples as 16-bit little-endian bytes for the encoder.
pub fn samples_to_le_bytes(samples: &Vec<i16>) -> (r: Vec<u8>)
    ensures
        r@ == le_bytes_spec(samples@),
{
    let mut out: Vec<u8> = Vec::new();
    let mut i: usize = 0;
    while i < samples.len()
        invariant
            i <= samples@.len(),
            out@.len() == 2 * i,
            forall|k: int| 0 <= k < out@.len() ==> #[trigger] out@[k] == (if k % 2 == 0 { le_low(samples@[k / 2]) } else { le_high(samples@[k / 2]) }),
        decreases samples@.len() - i,
    {
        let s = samples[i];
        let u: u16 = s as u16;
        let lo: u8 = (u & 0xffu16) as u8;
        let hi: u8 = (u >> 8u16) as u8;
        proof {
            assert(u == (if s < 0 { s + 0x1_0000 } else { s as int })) by (bit_vector)
                requires
                    u == s as u16,
            ;
            assert(lo == u % 256 && hi == u / 256) by (bit_vector)
                requires
                    lo == (u & 0xffu16) as u8,
                    hi == (u >> 8u16) as u8,
            ;
            lemma_fundamental_div_mod_converse(2 * i as int, 2, i as int, 0);
            lemma_fundamental_div_mod_converse(2 * i as int + 1, 2, i as int, 1);
        }
        out.push(lo);
        out.push(hi);
        i = i + 1;
    }
    assert(out@ =~= le_bytes_spec(samples@));
    out
}

/// A 32-bit sample scaled to 16 bits by dropping its low half.
pub open spec fn pcm32_spec(s: i32) -> i16 {
    (s as int / 0x1_0000) as i16
}

/// Scales 32-bit integer samples to 16 bits.
pub fn pcm32_to_i16(src: &Vec<i32>) -> (r: Vec<i16>)
    ensures
        r@.len() == src@.len(),
        forall|i: int| 0 <= i < src@.len() ==> #[trigger] r@[i] == pcm32_spec(src@[i]),
{
    let mut out: Vec<i16> = Vec::new();
    let mut i: usize = 0;
    while i < src.len()
        invariant
            i <= src@.len(),
            out@.len() == i,
            forall|k: int| 0 <= k < i ==> #[trigger] out@[k] == pcm32_spec(src@[k]),
        decreases src@.len() - i,
    {
        let s = src[i];
        let v: i32 = s >> 16u32;
        assert(v == s as int / 0x1_0000 && -32768 <= v <= 32767) by (bit_vector)
            requires
                v == s >> 16u32,
        ;
        out.push(v as i16);
        i = i + 1;
    }
    out
}

/// The sample formats an audio device may deliver.
#[derive(Debug, Clone, Copy, PartialEq, Eq, Structural)]
pub enum SampleSource {
    /// The packet is flagged silent: zeros.
    Silence,
    /// 32-bit float samples.
    Float32,
    /// 16-bit integer samples, taken as they are.
    Pcm16,
    /// 32-bit integer samples, scaled down.
    Pcm32,
    /// Anything else: zeros.
    Unsupported,
}

/// The format tag of IEEE float audio, and of the extensible format.
pub const WAVE_FORMAT_IEEE_FLOAT: u16 = 3;
pub const WAVE_FORMAT_EXTENSIBLE: u16 = 0xfffe;

/// The sub-format identifier of IEEE float audio.
pub const SUBTYPE_IEEE_FLOAT: u128 = 0x00000003_0000_0010_8000_00aa00389b71;

/// The flag that marks a captured packet as silent.
pub const BUFFER_FLAG_SILENT: u32 = 0x2;

/// Whether a device format delivers IEEE float samples: by its tag, or by
/// its sub-format when the tag says the format is extensible.
pub fn is_ieee_float(format_tag: u16, sub_format: u128) -> (b: bool)
    ensures
        b == (format_tag == WAVE_FORMAT_IEEE_FLOAT || (format_tag == WAVE_FORMAT_EXTENSIBLE && sub_format == SUBTYPE_IEEE_FLOAT)),
{
    if format_tag == WAVE_FORMAT_IEEE_FLOAT {
        return true;
    }
    if format_tag == WAVE_FORMAT_EXTENSIBLE {
        return sub_format == SUBTYPE_IEEE_FLOAT;
    }
    false
}

/// How a captured packet is read.
pub fn sample_source(flags: u32, is_float: bool, bits: usize) -> (r: SampleSource)
    ensures
        (flags / 2) % 2 == 1 ==> r == SampleSource::Silence,
        (flags / 2) % 2 == 0 ==> r == (if is_float && bits == 32 {
            SampleSource::Float32
        } else if !is_float && bits == 16 {
            SampleSource::Pcm16
        } else if !is_float && bits == 32 {
            SampleSource::Pcm32
        } else {
            SampleSource::Unsupported
        }),
{
    let silent = flags & BUFFER_FLAG_SILENT != 0;
    assert(silent == ((flags / 2) % 2 == 1)) by (bit_vector)
        requires
            silent == (flags & 2u32 != 0),
    ;
    if silent {
        SampleSource::Silence
    } else if is_float && bits == 32 {
        SampleSource::Float32
    } else if !is_float && bits == 16 {
        SampleSource::Pcm16
    } else if !is_float && bits == 32 {
        SampleSource::Pcm32
    } else {
        SampleSource::Unsupported
    }
}


/// The first `k` rows of the vertically flipped frame: row `j` of the
/// result is row `h - 1 - j` of `data`.
pub open spec fn flipped_rows(data: Seq<u8>, row_bytes: int, h: int, k: int) -> Seq<u8>
    decreases k,
{
    if k <= 0 {
        Seq::empty()
    } else {
        flipped_rows(data, row_bytes, h, k - 1) + data.subrange((h - k) * row_bytes, (h - k + 1) * row_bytes)
    }
}

/// A cropped frame of `h` rows of `width` pixels turned upside down; bytes
/// past the last row come out as zeros.
pub open spec fn flip_spec(data: Seq<u8>, width: int, h: int) -> Seq<u8> {
    let rb = width * 4;
    flipped_rows(data, rb, h, h) + Seq::new((data.len() - h * rb) as nat, |i: int| 0u8)
}

proof fn lemma_flipped_rows_len(data: Seq<u8>, rb: int, h: int, k: int)
    requires
        0 <= k <= h,
        0 <= rb,
        h * rb <= data.len(),
    ensures
        flipped_rows(data, rb, h, k).len() == k * rb,
    decreases k,
{
    if k > 0 {
        lemma_flipped_rows_len(data, rb, h, k - 1);
        assert(0 <= (h - k) * rb && (h - k) * rb <= (h - k + 1) * rb && (h - k + 1) * rb <= h * rb && k * rb == (k - 1) * rb + rb
            && (h - k + 1) * rb - (h - k) * rb == rb) by (nonlinear_arith)
            requires
                0 < k <= h,
                0 <= rb,
        ;
    } else {
        assert(k * rb == 0) by (nonlinear_arith)
            requires
                k == 0,
        ;
    }
}

/// Turns a cropped BGRA frame upside down, row by row, for an encoder that
/// expects bottom-up rows.
pub fn flip_rows(data: &Vec<u8>, width: usize, height: usize) -> (r: Vec<u8>)
    requires
        width * 4 <= usize::MAX,
        width * 4 * height <= data@.len(),
    ensures
        r@ == flip_spec(data@, width as int, height as int),
        r@.len() == data@.len(),
{
    let ghost rb = width as int * 4;
    let dlen = data.len();
    proof {
        assert(0 <= rb * height <= data@.len()) by (nonlinear_arith)
            requires
                width * 4 * height <= data@.len(),
                rb == width * 4,
        ;
        assert(rb * height == height * rb) by (nonlinear_arith);
        assert(data@.len() <= usize::MAX);
    }
    let row_bytes: usize = width * 4;
    let mut out: Vec<u8> = Vec::new();
    let mut k: usize = 0;
    while k < height
        invariant
            rb == width * 4,
            row_bytes == rb,
            height * rb <= data@.len(),
            data@.len() <= usize::MAX,
            k <= height,
            out@ == flipped_rows(data@, rb, height as int, k as int),
        decreases height - k,
    {
        proof {
            lemma_flipped_rows_len(data@, rb, height as int, k as int);
            assert(0 <= (height - k - 1) * rb && (height - k) * rb <= height * rb && (height - k) * rb == (height - k - 1) * rb + rb) by (nonlinear_arith)
                requires
                    k < height,
                    0 <= rb,
            ;
        }
        let start: usize = (height - k - 1) * row_bytes;
        let mut c: usize = 0;
        let ghost before = out@;
        while c < row_bytes
            invariant
                rb == width * 4,
                row_bytes == rb,
                height * rb <= data@.len(),
                k < height,
                start == (height - k - 1) * rb,
                start + rb <= data@.len(),
                data@.len() <= usize::MAX,
                c <= row_bytes,
                out@ == before + data@.subrange(start as int, start + c),
            decreases row_bytes - c,
        {
            out.push(data[start + c]);
            c = c + 1;
            assert(out@ =~= before + data@.subrange(start as int, start + c));
        }
        k = k + 1;
        assert(out@ =~= flipped_rows(data@, rb, height as int, k as int));
    }
    proof {
        lemma_flipped_rows_len(data@, rb, height as int, height as int);
    }
    let ghost rows = out@;
    let mut z: usize = height * row_bytes;
    while z < data.len()
        invariant
            rb == width * 4,
            row_bytes == rb,
            height * rb <= z <= data@.len(),
            data@.len() <= usize::MAX,
            rows.len() == height * rb,
            out@ == rows + Seq::new((z - height * rb) as nat, |i: int| 0u8),
        decreases data@.len() - z,
    {
        out.push(0);
        z = z + 1;
        assert(out@ =~= rows + Seq::new((z - height * rb) as nat, |i: int| 0u8));
    }
    assert(out@ =~= flip_spec(data@, width as int, height as int));
    out
}


/// A region's crop lies inside the monitor chosen for it, and the crop's
/// size is its extent.
pub proof fn lemma_region_crop_inside(rect: Rect, ms: Seq<Option<Bounds>>)
    requires
        ms.len() <= usize::MAX,
        region_plan_spec(rect, ms) is Ok,
    ensures
        ({
            let (i, (sx, sy, ex, ey), w, h) = region_plan_spec(rect, ms)->Ok_0;
            let m = ms[i as int].unwrap();
            &&& 0 <= i < ms.len()
            &&& ms[i as int] is Some
            &&& sx < ex <= m.right - m.left
            &&& sy < ey <= m.bottom - m.top
            &&& w == ex - sx
            &&& h == ey - sy
        }),
{
    lemma_best_monitor_bounds(ms, rect, ms.len() as int);
    let (i, a) = best_monitor(ms, rect, ms.len() as int).unwrap();
    let m = ms[i].unwrap();
    let ix = max_int(min_int(rect_right(rect), m.right as int) - max_int(rect.x as int, m.left as int), 0);
    let iy = max_int(min_int(rect_bottom(rect), m.bottom as int) - max_int(rect.y as int, m.top as int), 0);
    if ix == 0 || iy == 0 {
        assert(ix * iy == 0) by (nonlinear_arith)
            requires
                ix == 0 || iy == 0,
        ;
    }
    let (sx, sy, ex, ey) = crop_spec(rect, m);
    assert(ex - sx > 0 && ey - sy > 0);
    assert(0 <= sx && ex <= m.right - m.left <= u32::MAX);
    assert(0 <= sy && ey <= m.bottom - m.top <= u32::MAX);
}

/// Pausing then resuming a running recording leaves it running and not
/// paused, and every other recording as it was; once stopped, it is no
/// longer running, so pausing it is refused.
pub proof fn lemma_pause_resume_stop(m: Map<u64, bool>, id: u64, other: u64)
    requires
        m.contains_key(id),
        other != id,
    ensures
        m.insert(id, true).insert(id, false).contains_key(id),
        m.insert(id, true).insert(id, false)[id] == false,
        m.contains_key(other) ==> m.insert(id, true).insert(id, false)[other] == m[other],
        m.insert(id, true).insert(id, false).dom() == m.dom(),
        !m.remove(id).contains_key(id),
{
    assert(m.insert(id, true).insert(id, false).dom() =~= m.dom());
}

/// Mixing empties at least one of the two queues, and what it returns is
/// as long as the shorter one was.
pub proof fn lemma_mixing_drains(sys: Seq<i16>, mic: Seq<i16>)
    ensures
        ({
            let n = min_int(sys.len() as int, mic.len() as int);
            &&& mixed_spec(sys, mic, n).len() == n
            &&& (sys.skip(n).len() == 0 || mic.skip(n).len() == 0)
            &&& sys.skip(n).len() + n == sys.len()
            &&& mic.skip(n).len() + n == mic.len()
        }),
{
}

/// The two bytes of a sample give the sample back.
pub proof fn lemma_le_bytes_round_trip(s: i16)
    ensures
        le_low(s) + 256 * le_high(s) - (if le_high(s) >= 128 { 0x1_0000int } else { 0 }) == s,
{
}

/// Remixing to the same channel count changes nothing; mono becomes stereo
/// of twice the length.
pub proof fn lemma_remix_lengths(s: Seq<i16>, src: int, dst: int)
    requires
        src > 0,
        dst >= 0,
    ensures
        src == dst ==> remix_spec(s, src, dst) == s,
        src != dst ==> remix_spec(s, src, dst).len() == (s.len() as int / src) * dst,
        src == 1 && dst == 2 ==> remix_spec(s, src, dst).len() == 2 * s.len(),
{
    assert(0 <= (s.len() as int / src) * dst) by (nonlinear_arith)
        requires
            src > 0,
            dst >= 0,
    ;
    if src == 1 && dst == 2 {
        assert((s.len() as int / src) * dst == 2 * s.len()) by (nonlinear_arith)
            requires
                src == 1,
                dst == 2,
        ;
    }
}

} // verus!
