//! What the desktop-app plugin decides on its own: the option records its
//! commands take and give, their defaults, the recording target a request
//! names, and the images it receives or sends as Base64. The commands'
//! plumbing into the host application lives outside this library.
use crate::api::{AudioOptions, CapturedImage, Rect, RecordingTarget};
use crate::error::{Result, WinScreenError};
use crate::io::{base64_spec, decode_base64, decoded_rgba, encode_base64, png_encoding, lemma_base64_injective};
use std::collections::HashMap;
use vstd::prelude::*;

verus! {

broadcast use vstd::std_specs::hash::group_hash_axioms;

/// The event a finished capture is announced under.
pub const EVENT_CAPTURE_DONE: &'static str = "win-screen://capture-done";
/// The event a stopped recording is announced under.
pub const EVENT_RECORDING_STOPPED: &'static str = "win-screen://recording-stopped";
/// The event a fired hotkey is announced under.
pub const EVENT_HOTKEY_FIRED: &'static str = "win-screen://hotkey-fired";

/// What a capture command returns.
#[derive(Debug, Clone)]
pub struct CaptureResponse {
    pub width: u32,
    pub height: u32,
    pub path: Option<std::path::PathBuf>,
    pub base64_png: Option<String>,
}

/// What an interactive selection returns.
#[derive(Debug, Clone)]
pub struct InteractiveSelectionResponse {
    pub rect: Rect,
    pub width: u32,
    pub height: u32,
    pub base64_png: Option<String>,
}

/// What to do with a captured image.
#[derive(Debug, Clone)]
pub struct CaptureOptions {
    pub save_path: Option<std::path::PathBuf>,
    pub clipboard: Option<bool>,
    pub inline_base64: Option<bool>,
}

#[derive(Debug, Clone)]
pub struct RegionCaptureOptions {
    pub x: i32,
    pub y: i32,
    pub width: u32,
    pub height: u32,
    pub save_path: Option<std::path::PathBuf>,
    pub clipboard: Option<bool>,
    pub inline_base64: Option<bool>,
}

#[derive(Debug, Clone)]
pub struct MonitorCaptureOptions {
    pub monitor: u32,
    pub save_path: Option<std::path::PathBuf>,
    pub clipboard: Option<bool>,
    pub inline_base64: Option<bool>,
}

#[derive(Debug, Clone)]
pub struct WindowCaptureOptions {
    pub hwnd: isize,
    pub save_path: Option<std::path::PathBuf>,
    pub clipboard: Option<bool>,
    pub inline_base64: Option<bool>,
}

/// A recording request: a region `[x, y, width, height]` wins over a
/// monitor index; neither records the primary monitor.
#[derive(Debug, Clone)]
pub struct RecordingOptions {
    pub output: std::path::PathBuf,
    pub system_audio: Option<bool>,
    pub microphone: Option<bool>,
    pub monitor: Option<u32>,
    pub region: Option<[i32; 4]>,
}

#[derive(Debug, Clone, Copy, PartialEq, Eq, Structural)]
pub struct RecordingResponse {
    pub id: u64,
}

#[derive(Debug, Clone, Copy, PartialEq, Eq, Structural)]
pub struct PinResponse {
    pub id: u64,
}

/// Where the image of a new pin comes from: a file, or Base64 text.
#[derive(Debug, Clone)]
pub struct PinImageOptions {
    pub path: Option<std::path::PathBuf>,
    pub base64_image: Option<String>,
}

#[derive(Debug, Clone)]
pub struct SavePinOptions {
    pub id: u64,
    pub path: std::path::PathBuf,
}

/// Why a plugin command failed.
#[derive(Debug)]
pub enum PluginError {
    Core(WinScreenError),
    Base64(base64::DecodeError),
    /// A pin was asked for with neither a path nor an image.
    MissingImage,
}

/// The options of a whole-screen capture made without any: no file, no
/// clipboard, no inline image.
pub fn default_capture_options() -> (o: CaptureOptions)
    ensures
        o.save_path is None,
        o.clipboard == Some(false),
        o.inline_base64 == Some(false),
{
    CaptureOptions { save_path: None, clipboard: Some(false), inline_base64: Some(false) }
}

/// The options of an interactive capture made without any: copied to the
/// clipboard, no file, no inline image.
pub fn default_interactive_options() -> (o: CaptureOptions)
    ensures
        o.save_path is None,
        o.clipboard == Some(true),
        o.inline_base64 == Some(false),
{
    CaptureOptions { save_path: None, clipboard: Some(true), inline_base64: Some(false) }
}

impl RegionCaptureOptions {
    /// The region asked for; a zero side is refused.
    pub fn rect(&self) -> (r: Result<Rect>)
        ensures
            self.width == 0 || self.height == 0 ==> r == Err::<Rect, WinScreenError>(
                WinScreenError::InvalidRect(Rect { x: self.x, y: self.y, width: self.width, height: self.height }),
            ),
            self.width != 0 && self.height != 0 ==> r == Ok::<Rect, WinScreenError>(
                Rect { x: self.x, y: self.y, width: self.width, height: self.height },
            ),
    {
        Rect::new(self.x, self.y, self.width, self.height)
    }

    /// What to do with the image.
    pub fn capture_options(self) -> (o: CaptureOptions)
        ensures
            o.save_path == self.save_path,
            o.clipboard == self.clipboard,
            o.inline_base64 == self.inline_base64,
    {
        CaptureOptions { save_path: self.save_path, clipboard: self.clipboard, inline_base64: self.inline_base64 }
    }
}

impl MonitorCaptureOptions {
    pub fn capture_options(self) -> (o: CaptureOptions)
        ensures
            o.save_path == self.save_path,
            o.clipboard == self.clipboard,
            o.inline_base64 == self.inline_base64,
    {
        CaptureOptions { save_path: self.save_path, clipboard: self.clipboard, inline_base64: self.inline_base64 }
    }
}

impl WindowCaptureOptions {
    pub fn capture_options(self) -> (o: CaptureOptions)
        ensures
            o.save_path == self.save_path,
            o.clipboard == self.clipboard,
            o.inline_base64 == self.inline_base64,
    {
        CaptureOptions { save_path: self.save_path, clipboard: self.clipboard, inline_base64: self.inline_base64 }
    }
}

/// The steps that finish a capture, in order: copy to the clipboard, save,
/// encode inline.
#[derive(Debug, Clone, Copy, PartialEq, Eq, Structural)]
pub struct FinishSteps {
    pub clipboard: bool,
    pub save: bool,
    pub inline_base64: bool,
}

/// Which finishing steps the options ask for; unset ones are off.
pub fn finish_steps(options: &CaptureOptions) -> (s: FinishSteps)
    ensures
        s.clipboard == (options.clipboard == Some(true)),
        s.save == options.save_path.is_some(),
        s.inline_base64 == (options.inline_base64 == Some(true)),
{
    FinishSteps {
        clipboard: match options.clipboard {
            Some(b) => b,
            None => false,
        },
        save: options.save_path.is_some(),
        inline_base64: match options.inline_base64 {
            Some(b) => b,
            None => false,
        },
    }
}

/// What an interactive capture leaves to the finishing steps once the
/// capture itself has saved and copied: only the inline image.
pub fn after_interactive(options: &CaptureOptions) -> (o: CaptureOptions)
    ensures
        o.clipboard == Some(false),
        o.save_path is None,
        o.inline_base64 == options.inline_base64,
{
    CaptureOptions { clipboard: Some(false), save_path: None, inline_base64: options.inline_base64 }
}

/// The recording target a request names: its region (sides read as
/// unsigned), else its monitor, else the primary monitor.
pub open spec fn requested_target_spec(region: Option<[i32; 4]>, monitor: Option<u32>) -> core::result::Result<RecordingTarget, WinScreenError> {
    match region {
        Some(r) => {
            let rect = Rect { x: r[0], y: r[1], width: r[2] as u32, height: r[3] as u32 };
            if rect.width == 0 || rect.height == 0 {
                Err(WinScreenError::InvalidRect(rect))
            } else {
                Ok(RecordingTarget::Region(rect))
            }
        },
        None => match monitor {
            Some(i) => Ok(RecordingTarget::Monitor(i)),
            None => Ok(RecordingTarget::Fullscreen),
        },
    }
}

impl RecordingOptions {
    /// What the request records.
    pub fn target(&self) -> (r: Result<RecordingTarget>)
        ensures
            r == requested_target_spec(self.region, self.monitor),
    {
        match self.region {
            Some(r) => {
                let rect = Rect::new(r[0], r[1], r[2] as u32, r[3] as u32);
                match rect {
                    Ok(rect) => Ok(RecordingTarget::Region(rect)),
                    Err(e) => Err(e),
                }
            },
            None => match self.monitor {
                Some(i) => Ok(RecordingTarget::Monitor(i)),
                None => Ok(RecordingTarget::Fullscreen),
            },
        }
    }

    /// The audio the request records: system audio unless turned off,
    /// the microphone only when turned on.
    pub fn audio(&self) -> (a: AudioOptions)
        ensures
            a.system == (self.system_audio != Some(false)),
            a.microphone == (self.microphone == Some(true)),
    {
        AudioOptions {
            system: match self.system_audio {
                Some(b) => b,
                None => true,
            },
            microphone: match self.microphone {
                Some(b) => b,
                None => false,
            },
        }
    }
}

/// Where a pin's image comes from.
#[derive(Debug)]
pub enum PinImageSource {
    File(std::path::PathBuf),
    Base64(String),
}

impl PinImageOptions {
    /// A path wins over Base64 text; neither is refused.
    pub fn source(self) -> (r: core::result::Result<PinImageSource, PluginError>)
        ensures
            self.path is Some ==> (r matches Ok(PinImageSource::File(q)) && q == self.path.unwrap()),
            self.path is None && self.base64_image is Some ==> (r matches Ok(PinImageSource::Base64(t))
                && t == self.base64_image.unwrap()),
            self.path is None && self.base64_image is None ==> (r matches Err(PluginError::MissingImage)),
    {
        match self.path {
            Some(p) => Ok(PinImageSource::File(p)),
            None => match self.base64_image {
                Some(t) => Ok(PinImageSource::Base64(t)),
                None => Err(PluginError::MissingImage),
            },
        }
    }
}

/// The image that Base64 text carries: the text decoded, then the file it
/// holds decoded to RGBA.
pub fn image_from_base64(text: &str) -> (r: core::result::Result<CapturedImage, PluginError>)
    ensures
        !(exists|b: Seq<u8>| base64_spec(b) == text@) ==> r matches Err(PluginError::Base64(_)),
        forall|b: Seq<u8>| base64_spec(b) == text@ ==> (decoded_rgba(b) is None ==> (r matches Err(PluginError::Core(WinScreenError::Image(_))))),
        forall|b: Seq<u8>| base64_spec(b) == text@ && decoded_rgba(b) is Some && crate::api::rgba_len(decoded_rgba(b).unwrap().0, decoded_rgba(b).unwrap().1) <= u32::MAX
            ==> (r matches Ok(img) && img.width == decoded_rgba(b).unwrap().0 && img.height == decoded_rgba(b).unwrap().1 && img.rgba@ == decoded_rgba(b).unwrap().2),
        forall|b: Seq<u8>| base64_spec(b) == text@ && decoded_rgba(b) is Some && crate::api::rgba_len(decoded_rgba(b).unwrap().0, decoded_rgba(b).unwrap().1) > u32::MAX
            ==> (r matches Err(PluginError::Core(WinScreenError::ImageTooLarge))),
        r matches Ok(img) ==> img.wf(),
{
    let bytes = match decode_base64(text) {
        Ok(b) => b,
        Err(e) => return Err(PluginError::Base64(e)),
    };
    proof {
        assert forall|b: Seq<u8>| base64_spec(b) == text@ implies b == bytes@ by {
            lemma_base64_injective(b, bytes@);
        }
    }
    match CapturedImage::decode(bytes.as_slice()) {
        Ok(img) => Ok(img),
        Err(e) => Err(PluginError::Core(e)),
    }
}

/// The image as Base64 PNG text.
pub fn encode_png_base64(image: &CapturedImage) -> (r: Result<String>)
    requires
        image.wf(),
    ensures
        png_encoding(image.rgba@, image.width, image.height) is None ==> (r matches Err(WinScreenError::Image(_))),
        png_encoding(image.rgba@, image.width, image.height) is Some && png_encoding(image.rgba@, image.width, image.height).unwrap().len() * 2
            <= usize::MAX ==> (r matches Ok(s) && s@ == base64_spec(png_encoding(image.rgba@, image.width, image.height).unwrap())),
        png_encoding(image.rgba@, image.width, image.height) is Some && png_encoding(image.rgba@, image.width, image.height).unwrap().len() * 2
            > usize::MAX ==> (r matches Err(WinScreenError::ImageTooLarge)),
{
    let png = match image.encode_png() {
        Ok(b) => b,
        Err(e) => return Err(e),
    };
    if png.len() > usize::MAX / 2 {
        return Err(WinScreenError::ImageTooLarge);
    }
    Ok(encode_base64(&png))
}

/// An `unregister` for an id that holds no hotkey.
#[derive(Debug, Clone, Copy, PartialEq, Eq, Structural)]
pub struct HotkeyNotRegistered {
    pub id: i32,
}

/// The registered global hotkeys, by id, each with the handle that keeps it
/// alive.
#[derive(Debug)]
pub struct HotkeyRegistry<H> {
    handles: HashMap<i32, H>,
}

impl<H> View for HotkeyRegistry<H> {
    type V = Map<i32, H>;

    closed spec fn view(&self) -> Map<i32, H> {
        self.handles@
    }
}

impl<H> HotkeyRegistry<H> {
    /// No hotkeys registered.
    pub fn new() -> (r: Self)
        ensures
            r@ == Map::<i32, H>::empty(),
    {
        HotkeyRegistry { handles: HashMap::new() }
    }

    /// Keeps the handle of a hotkey just registered under `id`; a handle
    /// that held the id before is handed back to be released.
    pub fn register(&mut self, id: i32, handle: H) -> (r: Option<H>)
        ensures
            final(self)@ == old(self)@.insert(id, handle),
            r == (if old(self)@.contains_key(id) { Some(old(self)@[id]) } else { None }),
    {
        self.handles.insert(id, handle)
    }

    /// Takes out the handle of a registered hotkey to be released; an id
    /// that holds no hotkey is refused.
    pub fn unregister(&mut self, id: i32) -> (r: core::result::Result<H, HotkeyNotRegistered>)
        ensures
            final(self)@ == old(self)@.remove(id),
            old(self)@.contains_key(id) ==> r == Ok::<H, HotkeyNotRegistered>(old(self)@[id]),
            !old(self)@.contains_key(id) ==> r == Err::<H, HotkeyNotRegistered>(HotkeyNotRegistered { id }),
    {
        match self.handles.remove(&id) {
            Some(h) => Ok(h),
            None => Err(HotkeyNotRegistered { id }),
        }
    }
}

/// Unregistering a hotkey just registered gives back its handle and leaves
/// the other hotkeys as they were; unregistering it again is refused.
pub proof fn lemma_hotkey_register_unregister<H>(m: Map<i32, H>, id: i32, h: H)
    ensures
        m.insert(id, h).contains_key(id) && m.insert(id, h)[id] == h,
        m.insert(id, h).remove(id) == m.remove(id),
        !m.insert(id, h).remove(id).contains_key(id),
{
    assert(m.insert(id, h).remove(id) =~= m.remove(id));
}

} // verus!
