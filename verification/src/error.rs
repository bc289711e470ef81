use crate::api::Rect;
use vstd::prelude::*;

verus! {

/// Declares `image::ImageError` so that encoder and decoder failures can be
/// carried inside [`WinScreenError`].
#[verifier::external_type_specification]
#[verifier::external_body]
pub struct ExImageError(image::ImageError);

/// Declares `std::io::Error`, the cause of a failed file operation.
#[verifier::external_type_specification]
#[verifier::external_body]
pub struct ExIoError(std::io::Error);

/// Errors reported by the library.
#[derive(Debug)]
pub enum WinScreenError {
    UnsupportedPlatform,
    NotImplemented { feature: &'static str },
    InvalidImageBuffer { width: u32, height: u32, expected: usize, actual: usize },
    InvalidRect(Rect),
    ImageTooLarge,
    Clipboard(String),
    Image(image::ImageError),
    Io { path: std::path::PathBuf, source: std::io::Error },
    Windows(String),
    Recording(String),
}

pub type Result<T> = core::result::Result<T, WinScreenError>;

} // verus!
