//! Core logic of a Windows-first screenshot, recording and desktop-pinning
//! library: image buffers, annotation rendering, selection and editor state
//! machines, pin and recording registries, and the byte-level encoders.

pub mod api;
pub mod annotate;
pub mod capture;
pub mod cli;
pub mod editor;
pub mod error;
pub mod io;
pub mod overlay;
pub mod pin;
pub mod plugin;
pub mod raster;
pub mod record;
pub mod recording;

pub use api::{CapturedImage, Rect, Size};
pub use error::{Result, WinScreenError};
