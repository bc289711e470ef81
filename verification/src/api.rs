use crate::error::{Result, WinScreenError};
use vstd::prelude::*;

verus! {

/// Width and height of an image, in pixels.
#[derive(Debug, Clone, Copy, PartialEq, Eq, Structural)]
pub struct Size {
    pub width: u32,
    pub height: u32,
}

/// An axis-aligned rectangle in screen or image coordinates.
#[derive(Debug, Clone, Copy, PartialEq, Eq, Structural)]
pub struct Rect {
    pub x: i32,
    pub y: i32,
    pub width: u32,
    pub height: u32,
}

impl Rect {
    /// A rectangle with both sides non-zero; a zero side is refused.
    pub fn new(x: i32, y: i32, width: u32, height: u32) -> (r: Result<Self>)
        ensures
            width == 0 || height == 0 ==> r == Err::<Rect, WinScreenError>(
                WinScreenError::InvalidRect(Rect { x, y, width, height }),
            ),
            width != 0 && height != 0 ==> r == Ok::<Rect, WinScreenError>(
                Rect { x, y, width, height },
            ),
    {
        let rect = Self { x, y, width, height };
        if width == 0 || height == 0 {
            return Err(WinScreenError::InvalidRect(rect));
        }
        Ok(rect)
    }
}


/// Number of RGBA bytes that a `width` x `height` image holds.
pub open spec fn rgba_len(width: u32, height: u32) -> int {
    width as int * height as int * 4
}

/// An RGBA8 image buffer in row-major order.
#[derive(Debug, Clone)]
pub struct CapturedImage {
    pub width: u32,
    pub height: u32,
    pub rgba: Vec<u8>,
}

/// Whether a rectangle lies inside a `width` x `height` image with both
/// sides non-zero.
pub open spec fn rect_inside(rect: Rect, width: u32, height: u32) -> bool {
    &&& rect.width > 0
    &&& rect.height > 0
    &&& rect.x >= 0
    &&& rect.y >= 0
    &&& rect.x < width
    &&& rect.y < height
    &&& rect.x + rect.width <= width
    &&& rect.y + rect.height <= height
}

/// The bounds test of a crop or of a shape rectangle adds `x + width` and
/// `y + height` in `u32`; this holds when neither sum overflows on the way.
pub open spec fn rect_check_fits(rect: Rect, width: u32, height: u32) -> bool {
    let head = rect.width > 0 && rect.height > 0 && rect.x >= 0 && rect.y >= 0 && rect.x < width
        && rect.y < height;
    &&& head ==> rect.x + rect.width <= u32::MAX
    &&& (head && rect.x + rect.width <= width) ==> rect.y + rect.height <= u32::MAX
}

/// Row `row` of `rect` cut out of a buffer whose rows are `width` pixels wide.
pub open spec fn crop_row(src: Seq<u8>, width: u32, rect: Rect, row: int) -> Seq<u8> {
    let start = ((rect.y + row) * width + rect.x) * 4;
    src.subrange(start, start + rect.width * 4)
}

/// The first `rows` rows of `rect` cut out of `src`, concatenated.
pub open spec fn crop_rows(src: Seq<u8>, width: u32, rect: Rect, rows: nat) -> Seq<u8>
    decreases rows,
{
    if rows == 0 {
        Seq::empty()
    } else {
        crop_rows(src, width, rect, (rows - 1) as nat) + crop_row(src, width, rect, rows - 1)
    }
}

impl CapturedImage {
    /// The buffer holds exactly `width * height * 4` bytes, and that count fits
    /// in `u32` (as [`CapturedImage::new`] checks).
    pub open spec fn wf(&self) -> bool {
        &&& self.rgba@.len() == rgba_len(self.width, self.height)
        &&& rgba_len(self.width, self.height) <= u32::MAX
    }

    /// Builds an image after checking the buffer length against the size.
    pub fn new(width: u32, height: u32, rgba: Vec<u8>) -> (r: Result<Self>)
        ensures
            rgba_len(width, height) > u32::MAX ==> r matches Err(WinScreenError::ImageTooLarge),
            rgba_len(width, height) <= u32::MAX && rgba@.len() != rgba_len(width, height)
                ==> r == Err::<CapturedImage, WinScreenError>(
                WinScreenError::InvalidImageBuffer {
                    width,
                    height,
                    expected: rgba_len(width, height) as usize,
                    actual: rgba@.len() as usize,
                },
            ),
            rgba_len(width, height) <= u32::MAX && rgba@.len() == rgba_len(width, height)
                ==> (r matches Ok(img) && img.width == width && img.height == height && img.rgba@
                == rgba@),
            r matches Ok(img) ==> img.wf(),
    {
        let pixels = match width.checked_mul(height) {
            Some(px) => px.checked_mul(4),
            None => None,
        };
        let pixels = match pixels {
            Some(n) => n as usize,
            None => {
                proof {
                    if width as int * height as int <= u32::MAX {
                        assert(width as int * height as int * 4 > u32::MAX);
                    } else {
                        assert(width as int * height as int * 4 > u32::MAX) by (nonlinear_arith)
                            requires width as int * height as int > u32::MAX;
                    }
                }
                return Err(WinScreenError::ImageTooLarge);
            },
        };
        if rgba.len() != pixels {
            return Err(
                WinScreenError::InvalidImageBuffer {
                    width,
                    height,
                    expected: pixels,
                    actual: rgba.len(),
                },
            );
        }
        Ok(Self { width, height, rgba })
    }

    /// The image's width and height.
    pub fn size(&self) -> (s: Size)
        ensures
            s == (Size { width: self.width, height: self.height }),
    {
        Size { width: self.width, height: self.height }
    }

    /// Copies the pixels of `rect`, which must lie inside the image.
    pub fn crop(&self, rect: Rect) -> (r: Result<Self>)
        requires
            self.wf(),
            rect_check_fits(rect, self.width, self.height),
        ensures
            !rect_inside(rect, self.width, self.height) ==> r == Err::<CapturedImage, WinScreenError>(
                WinScreenError::InvalidRect(rect),
            ),
            rect_inside(rect, self.width, self.height) ==> (r matches Ok(img) && img.width
                == rect.width && img.height == rect.height && img.rgba@ == crop_rows(
                self.rgba@,
                self.width,
                rect,
                rect.height as nat,
            ) && img.wf()),
    {
        if rect.width == 0 || rect.height == 0 || rect.x < 0 || rect.y < 0 || rect.x as u32
            >= self.width || rect.y as u32 >= self.height || rect.x as u32 + rect.width
            > self.width || rect.y as u32 + rect.height > self.height {
            return Err(WinScreenError::InvalidRect(rect));
        }
        proof {
            lemma_rect_inside_fits(rect, self.width, self.height);
            assert(rect.width as int * rect.height as int * 4 <= u32::MAX) by (nonlinear_arith)
                requires
                    rect.width <= self.width,
                    rect.height <= self.height,
                    self.width as int * self.height as int * 4 <= u32::MAX,
            ;
            assert(self.width as int * 4 <= u32::MAX) by (nonlinear_arith)
                requires
                    self.height >= 1,
                    self.width as int * self.height as int * 4 <= u32::MAX,
            ;
        }
        let mut out: Vec<u8> = Vec::with_capacity((rect.width * rect.height * 4) as usize);
        let src_stride = self.width as usize * 4;
        let row_bytes = rect.width as usize * 4;
        let start_x = rect.x as usize * 4;
        let y0 = rect.y as usize;
        let mut j: usize = 0;
        while j < rect.height as usize
            invariant
                self.wf(),
                rect_inside(rect, self.width, self.height),
                src_stride == self.width * 4,
                row_bytes == rect.width * 4,
                start_x == rect.x * 4,
                y0 == rect.y,
                j <= rect.height,
                out@ == crop_rows(self.rgba@, self.width, rect, j as nat),
                rgba_len(self.width, self.height) <= usize::MAX,
            decreases rect.height - j,
        {
            proof {
                lemma_row_in_bounds(rect, self.width, self.height, j as int);
                assert((y0 + j) * src_stride + start_x == ((rect.y + j) * self.width + rect.x) * 4)
                    by (nonlinear_arith)
                    requires
                        src_stride == self.width * 4,
                        start_x == rect.x * 4,
                        y0 == rect.y,
                ;
            }
            let start = (y0 + j) * src_stride + start_x;
            let mut i: usize = 0;
            let ghost before = out@;
            while i < row_bytes
                invariant
                    self.wf(),
                    rect_inside(rect, self.width, self.height),
                    row_bytes == rect.width * 4,
                    start == ((rect.y + j) * self.width + rect.x) * 4,
                    start + row_bytes <= self.rgba@.len(),
                    i <= row_bytes,
                    out@ == before + self.rgba@.subrange(start as int, start + i),
                decreases row_bytes - i,
            {
                out.push(self.rgba[start + i]);
                i += 1;
                assert(out@ =~= before + self.rgba@.subrange(start as int, start + i));
            }
            j += 1;
        }
        proof {
            lemma_crop_rows_len(self.rgba@, self.width, self.height, rect, rect.height as nat);
            assert(rect.height as nat * rect.width * 4 == rgba_len(rect.width, rect.height))
                by (nonlinear_arith);
        }
        Self::new(rect.width, rect.height, out)
    }
}

proof fn lemma_rect_inside_fits(rect: Rect, width: u32, height: u32)
    requires
        rect_inside(rect, width, height),
    ensures
        rect.width <= width,
        rect.height <= height,
{
}

proof fn lemma_row_in_bounds(rect: Rect, width: u32, height: u32, j: int)
    requires
        rect_inside(rect, width, height),
        0 <= j < rect.height,
    ensures
        0 <= ((rect.y + j) * width + rect.x) * 4,
        ((rect.y + j) * width + rect.x) * 4 + rect.width * 4 <= rgba_len(width, height),
{
    assert(((rect.y + j) * width + rect.x) * 4 + rect.width * 4 <= rgba_len(width, height))
        by (nonlinear_arith)
        requires
            0 <= rect.y + j < height,
            0 <= rect.x,
            rect.x + rect.width <= width,
    ;
    assert(0 <= ((rect.y + j) * width + rect.x) * 4) by (nonlinear_arith)
        requires
            0 <= rect.y + j,
            0 <= rect.x,
            0 <= width,
    ;
}

/// The concatenated rows have `rows * rect.width * 4` bytes.
pub proof fn lemma_crop_rows_len(src: Seq<u8>, width: u32, height: u32, rect: Rect, rows: nat)
    requires
        src.len() == rgba_len(width, height),
        rect_inside(rect, width, height),
        rows <= rect.height,
    ensures
        crop_rows(src, width, rect, rows).len() == rows * rect.width * 4,
    decreases rows,
{
    if rows > 0 {
        lemma_crop_rows_len(src, width, height, rect, (rows - 1) as nat);
        lemma_row_in_bounds(rect, width, height, rows - 1);
        let r = rows - 1;
        assert(rows * rect.width * 4 == r * rect.width * 4 + rect.width * 4) by (nonlinear_arith)
            requires
                rows == r + 1,
        ;
        assert(crop_row(src, width, rect, rows - 1).len() == rect.width * 4);
        assert(crop_rows(src, width, rect, rows) == crop_rows(src, width, rect, r as nat)
            + crop_row(src, width, rect, r));
    } else {
        assert(rows * rect.width * 4 == 0) by (nonlinear_arith)
            requires
                rows == 0,
        ;
    }
}


/// Each pixel `(i, j)` of a crop is the source pixel `(rect.x + i, rect.y + j)`:
/// byte `c` of result pixel `j * rect.width + i` is byte `c` of source pixel
/// `(rect.y + j) * width + rect.x + i`.
pub proof fn lemma_crop_pixels(src: Seq<u8>, width: u32, height: u32, rect: Rect, rows: nat, i: int, j: int, c: int)
    requires
        src.len() == rgba_len(width, height),
        rect_inside(rect, width, height),
        rows <= rect.height,
        0 <= i < rect.width,
        0 <= j < rows,
        0 <= c < 4,
    ensures
        crop_rows(src, width, rect, rows)[4 * (j * rect.width + i) + c] == src[4 * ((rect.y + j) * width + rect.x + i) + c],
    decreases rows,
{
    let r = rows - 1;
    lemma_crop_rows_len(src, width, height, rect, r as nat);
    lemma_row_in_bounds(rect, width, height, r);
    let n = 4 * (j * rect.width + i) + c;
    assert(crop_rows(src, width, rect, rows) == crop_rows(src, width, rect, r as nat) + crop_row(src, width, rect, r));
    if j < r {
        assert(n < r * rect.width * 4) by (nonlinear_arith)
            requires
                n == 4 * (j * rect.width + i) + c,
                0 <= i < rect.width,
                0 <= j < r,
                0 <= c < 4,
        ;
        lemma_crop_pixels(src, width, height, rect, r as nat, i, j, c);
    } else {
        assert(n - r * rect.width * 4 == 4 * i + c) by (nonlinear_arith)
            requires
                n == 4 * (j * rect.width + i) + c,
                j == r,
        ;
        assert(((rect.y + r) * width + rect.x) * 4 + 4 * i + c == 4 * ((rect.y + j) * width + rect.x + i) + c)
            by (nonlinear_arith)
            requires
                j == r,
        ;
        assert(0 <= 4 * i + c < rect.width * 4);
    }
}

/// Declares `std::path::PathBuf`, carried through unchanged as an output or
/// save location.
#[verifier::external_type_specification]
#[verifier::external_body]
pub struct ExPathBuf(std::path::PathBuf);

/// `PathBuf::clone`, used by the derived `Clone` of the option types that
/// carry a path; nothing is claimed of the copy.
pub assume_specification[ <std::path::PathBuf as Clone>::clone ](p: &std::path::PathBuf) -> (r: std::path::PathBuf);

/// The id handed out after `id`: one more, wrapping to 0 after `u64::MAX`.
pub open spec fn next_after(id: u64) -> u64 {
    if id == u64::MAX {
        0
    } else {
        (id + 1) as u64
    }
}

/// The source of pin and recording handle ids: ids count up from one,
/// wrapping around after `u64::MAX`.
#[derive(Debug)]
pub struct HandleIds {
    next: u64,
}

impl HandleIds {
    /// The id the next handle gets.
    pub closed spec fn next_id(&self) -> u64 {
        self.next
    }

    pub fn new() -> (ids: HandleIds)
        ensures
            ids.next_id() == 1,
    {
        HandleIds { next: 1 }
    }

    /// Hands out the next id.
    pub fn take(&mut self) -> (id: u64)
        ensures
            id == old(self).next_id(),
            final(self).next_id() == next_after(old(self).next_id()),
    {
        let id = self.next;
        self.next = self.next.wrapping_add(1);
        id
    }
}

/// Two ids taken one after the other differ.
pub proof fn lemma_successive_ids_differ(a: u64)
    ensures
        next_after(a) != a,
{
}

/// `ids` were taken one after the other, none of them but the last being
/// `u64::MAX`.
pub open spec fn taken_in_turn(ids: Seq<u64>) -> bool {
    forall|k: int| 0 <= k < ids.len() - 1 ==> ids[k] < u64::MAX && #[trigger] ids[k + 1] == next_after(ids[k])
}

/// Over any run of takes from a fresh source (the first id is 1) that does
/// not reach `u64::MAX` before its last take, the ids strictly increase:
/// a handle made later has a larger id, and every id is at least 1.
pub proof fn lemma_ids_increase(ids: Seq<u64>, i: int, j: int)
    requires
        ids.len() > 0,
        ids[0] == 1,
        taken_in_turn(ids),
        0 <= i < j < ids.len(),
    ensures
        1 <= ids[i] < ids[j],
{
    assert forall|k: int| 0 <= k < ids.len() implies #[trigger] ids[k] == k + 1 by {
        lemma_ids_count(ids, k);
    }
}

proof fn lemma_ids_count(ids: Seq<u64>, k: int)
    requires
        ids.len() > 0,
        ids[0] == 1,
        taken_in_turn(ids),
        0 <= k < ids.len(),
    ensures
        ids[k] == k + 1,
    decreases k,
{
    if k > 0 {
        lemma_ids_count(ids, k - 1);
        assert(ids[(k - 1) + 1] == next_after(ids[k - 1]));
    }
}

/// A desktop pin, by id.
#[derive(Debug, Clone)]
pub struct PinHandle {
    id: u64,
}

/// What [`crate::pin::list_pins`] reports of a pin.
#[derive(Debug, Clone, Copy, PartialEq, Eq, Structural)]
pub struct PinInfo {
    pub id: u64,
    pub size: Size,
}

impl PinHandle {
    pub closed spec fn spec_id(&self) -> u64 {
        self.id
    }

    /// A handle for a new pin, with the next id.
    pub fn next(ids: &mut HandleIds) -> (h: PinHandle)
        ensures
            h.spec_id() == old(ids).next_id(),
            final(ids).next_id() == next_after(old(ids).next_id()),
    {
        PinHandle { id: ids.take() }
    }

    pub fn id(&self) -> (id: u64)
        ensures
            id == self.spec_id(),
    {
        self.id
    }
}

/// Desktop pins, as a whole.
pub struct Pin;

/// A running recording, by id.
#[derive(Debug)]
pub struct RecordingHandle {
    id: u64,
}

impl RecordingHandle {
    pub closed spec fn spec_id(&self) -> u64 {
        self.id
    }

    /// A handle for a new recording, with the next id.
    pub fn next(ids: &mut HandleIds) -> (h: RecordingHandle)
        ensures
            h.spec_id() == old(ids).next_id(),
            final(ids).next_id() == next_after(old(ids).next_id()),
    {
        RecordingHandle { id: ids.take() }
    }

    pub fn id(&self) -> (id: u64)
        ensures
            id == self.spec_id(),
    {
        self.id
    }
}

/// What an interactive capture does with its image.
#[derive(Debug, Clone)]
pub struct InteractiveCaptureOptions {
    pub annotate: bool,
    pub copy_to_clipboard: bool,
    pub save_path: Option<std::path::PathBuf>,
}

impl Default for InteractiveCaptureOptions {
    /// Annotate and copy to the clipboard, save nowhere.
    fn default() -> (o: Self)
        ensures
            o.annotate,
            o.copy_to_clipboard,
            o.save_path.is_none(),
    {
        InteractiveCaptureOptions { annotate: true, copy_to_clipboard: true, save_path: None }
    }
}

/// What a recording captures.
#[derive(Debug, Clone, Copy, PartialEq, Eq, Structural)]
pub enum RecordingTarget {
    Fullscreen,
    /// A monitor, by its 0-based index.
    Monitor(u32),
    Region(Rect),
    /// A window, by its handle.
    Window(isize),
}

/// Which audio sources a recording mixes in.
#[derive(Debug, Clone, Copy, PartialEq, Eq, Structural)]
pub struct AudioOptions {
    pub system: bool,
    pub microphone: bool,
}

impl Default for AudioOptions {
    /// System audio on, microphone off.
    fn default() -> (o: Self)
        ensures
            o == (AudioOptions { system: true, microphone: false }),
    {
        AudioOptions { system: true, microphone: false }
    }
}

/// A complete recording request.
#[derive(Debug, Clone)]
pub struct RecordingOptions {
    pub target: RecordingTarget,
    pub output: std::path::PathBuf,
    pub audio: AudioOptions,
}

/// Events a host application is told about.
#[derive(Debug, Clone)]
pub enum WinScreenEvent {
    CaptureDone { path: Option<std::path::PathBuf>, size: Size },
    CaptureCanceled,
    RecordingStopped { path: std::path::PathBuf },
    PinClosed { id: u64 },
}

/// A recording ready to start.
#[derive(Debug, Clone)]
pub struct Recorder {
    options: RecordingOptions,
}

impl Recorder {
    pub closed spec fn spec_options(&self) -> RecordingOptions {
        self.options
    }

    /// A builder with the default target, audio and no output yet.
    pub fn builder() -> (b: RecorderBuilder)
        ensures
            b.spec_target() == RecordingTarget::Fullscreen,
            b.spec_output().is_none(),
            b.spec_audio() == (AudioOptions { system: true, microphone: false }),
    {
        RecorderBuilder::default()
    }

    /// The request this recorder starts.
    pub fn options(&self) -> (o: &RecordingOptions)
        ensures
            *o == self.spec_options(),
    {
        &self.options
    }
}

/// Collects a recording request step by step.
#[derive(Debug, Clone)]
pub struct RecorderBuilder {
    target: RecordingTarget,
    output: Option<std::path::PathBuf>,
    audio: AudioOptions,
}

impl Default for RecorderBuilder {
    /// Fullscreen, default audio, no output.
    fn default() -> (b: Self)
        ensures
            b.spec_target() == RecordingTarget::Fullscreen,
            b.spec_output().is_none(),
            b.spec_audio() == (AudioOptions { system: true, microphone: false }),
    {
        RecorderBuilder { target: RecordingTarget::Fullscreen, output: None, audio: AudioOptions::default() }
    }
}

impl RecorderBuilder {
    pub closed spec fn spec_target(&self) -> RecordingTarget {
        self.target
    }

    pub closed spec fn spec_output(&self) -> Option<std::path::PathBuf> {
        self.output
    }

    pub closed spec fn spec_audio(&self) -> AudioOptions {
        self.audio
    }

    /// Sets what is recorded.
    pub fn target(self, target: RecordingTarget) -> (b: Self)
        ensures
            b.spec_target() == target,
            b.spec_output() == self.spec_output(),
            b.spec_audio() == self.spec_audio(),
    {
        let mut b = self;
        b.target = target;
        b
    }

    /// Sets the audio sources.
    pub fn audio(self, audio: AudioOptions) -> (b: Self)
        ensures
            b.spec_target() == self.spec_target(),
            b.spec_output() == self.spec_output(),
            b.spec_audio() == audio,
    {
        let mut b = self;
        b.audio = audio;
        b
    }

    /// Sets the output file.
    pub fn output(self, output: std::path::PathBuf) -> (b: Self)
        ensures
            b.spec_target() == self.spec_target(),
            b.spec_output() == Some(output),
            b.spec_audio() == self.spec_audio(),
    {
        let mut b = self;
        b.output = Some(output);
        b
    }

    /// The recorder, once an output is set; without one there is no default
    /// location yet.
    pub fn build(self) -> (r: Result<Recorder>)
        ensures
            self.spec_output().is_none() ==> r == Err::<Recorder, WinScreenError>(
                WinScreenError::NotImplemented { feature: "recording output default path" },
            ),
            self.spec_output().is_some() ==> (r matches Ok(rec) && rec.spec_options() == (RecordingOptions {
                target: self.spec_target(),
                output: self.spec_output().unwrap(),
                audio: self.spec_audio(),
            })),
    {
        let output = match self.output {
            Some(o) => o,
            None => {
                return Err(WinScreenError::NotImplemented { feature: "recording output default path" });
            },
        };
        Ok(Recorder { options: RecordingOptions { target: self.target, output, audio: self.audio } })
    }
}

} // verus!
