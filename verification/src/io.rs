//! Image encoding and decoding in memory: PNG and JPEG through the `image`
//! crate, Base64 through the `base64` crate, and the pixel repacking around
//! them. Files and the clipboard live outside this library.
use crate::api::{rgba_len, CapturedImage};
use crate::error::{Result, WinScreenError};
use base64::Engine;
use image::ImageEncoder;
use vstd::arithmetic::div_mod::lemma_fundamental_div_mod_converse;
use vstd::prelude::*;

verus! {

/// Declares `base64::DecodeError`, the error of a refused Base64 text.
#[verifier::external_type_specification]
#[verifier::external_body]
pub struct ExDecodeError(base64::DecodeError);

/// The PNG file the `image` crate's PNG encoder, with its default
/// compression and filter, writes for an RGBA8 buffer of the given size;
/// `None` when it refuses the image.
pub uninterp spec fn png_encoding(rgba: Seq<u8>, width: u32, height: u32) -> Option<Seq<u8>>;

/// The JPEG file the `image` crate's JPEG encoder writes for an RGB8
/// buffer at the given quality; `None` when it refuses the image.
pub uninterp spec fn jpeg_encoding(rgb: Seq<u8>, width: u32, height: u32, quality: u8) -> Option<Seq<u8>>;

/// The RGBA8 pixels the `image` crate decodes from an encoded file whose
/// format it guesses from the bytes: width, height and pixels; `None` when
/// it cannot decode them.
pub uninterp spec fn decoded_rgba(bytes: Seq<u8>) -> Option<(u32, u32, Seq<u8>)>;

/// `image::codecs::png::PngEncoder::write_image` on an in-memory buffer,
/// RGBA8. The crate asserts that the buffer holds `width * height * 4`
/// bytes; the bytes written, or the refusal, are named by `png_encoding`.
#[verifier::external_body]
fn png_write(rgba: &[u8], width: u32, height: u32) -> (r: core::result::Result<Vec<u8>, image::ImageError>)
    requires
        rgba@.len() == rgba_len(width, height),
    ensures
        r matches Ok(b) ==> png_encoding(rgba@, width, height) == Some(b@),
        r is Err ==> png_encoding(rgba@, width, height) is None,
{
    let mut out = Vec::new();
    image::codecs::png::PngEncoder::new(&mut out).write_image(rgba, width, height, image::ExtendedColorType::Rgba8)?;
    Ok(out)
}

/// `image::codecs::jpeg::JpegEncoder::new_with_quality(..).write_image` on
/// an in-memory buffer, RGB8. The crate asserts that the buffer holds
/// `width * height * 3` bytes; the bytes written, or the refusal, are named
/// by `jpeg_encoding`.
#[verifier::external_body]
fn jpeg_write(rgb: &[u8], width: u32, height: u32, quality: u8) -> (r: core::result::Result<Vec<u8>, image::ImageError>)
    requires
        rgb@.len() == width as int * height as int * 3,
    ensures
        r matches Ok(b) ==> jpeg_encoding(rgb@, width, height, quality) == Some(b@),
        r is Err ==> jpeg_encoding(rgb@, width, height, quality) is None,
{
    let mut out = Vec::new();
    image::codecs::jpeg::JpegEncoder::new_with_quality(&mut out, quality).write_image(rgb, width, height, image::ExtendedColorType::Rgb8)?;
    Ok(out)
}

/// `image::load_from_memory` followed by `to_rgba8`. The pixels, or the
/// refusal, are named by `decoded_rgba`; an RGBA8 buffer holds four bytes
/// per pixel.
#[verifier::external_body]
fn decode_rgba(bytes: &[u8]) -> (r: core::result::Result<(u32, u32, Vec<u8>), image::ImageError>)
    ensures
        r matches Ok((w, h, px)) ==> decoded_rgba(bytes@) == Some((w, h, px@)) && px@.len() == rgba_len(w, h),
        r is Err ==> decoded_rgba(bytes@) is None,
{
    let img = image::load_from_memory(bytes)?.to_rgba8();
    Ok((img.width(), img.height(), img.into_raw()))
}

/// The character of a 6-bit value in the standard Base64 alphabet.
pub open spec fn b64_digit(v: int) -> char {
    if v < 26 {
        (65 + v) as char
    } else if v < 52 {
        (71 + v) as char
    } else if v < 62 {
        (v - 4) as char
    } else if v == 62 {
        '+'
    } else {
        '/'
    }
}

/// Standard Base64 with `=` padding (RFC 4648, section 4).
pub open spec fn base64_spec(b: Seq<u8>) -> Seq<char>
    decreases b.len(),
{
    if b.len() == 0 {
        Seq::empty()
    } else if b.len() == 1 {
        seq![b64_digit(b[0] as int / 4), b64_digit((b[0] as int % 4) * 16), '=', '=']
    } else if b.len() == 2 {
        seq![b64_digit(b[0] as int / 4), b64_digit((b[0] as int % 4) * 16 + b[1] as int / 16), b64_digit((b[1] as int % 16) * 4), '=']
    } else {
        seq![
            b64_digit(b[0] as int / 4),
            b64_digit((b[0] as int % 4) * 16 + b[1] as int / 16),
            b64_digit((b[1] as int % 16) * 4 + b[2] as int / 64),
            b64_digit(b[2] as int % 64),
        ] + base64_spec(b.subrange(3, b.len() as int))
    }
}

/// `base64::engine::general_purpose::STANDARD.encode`: standard alphabet,
/// padded. It panics when the encoded length overflows `usize`, which the
/// bound on the input rules out.
#[verifier::external_body]
fn base64_encode(bytes: &[u8]) -> (s: String)
    requires
        bytes@.len() * 2 <= usize::MAX,
    ensures
        s@ == base64_spec(bytes@),
{
    base64::engine::general_purpose::STANDARD.encode(bytes)
}

/// `base64::engine::general_purpose::STANDARD.decode`: standard alphabet,
/// canonical padding required, no stray trailing bits. It accepts exactly
/// the encodings of some bytes, and gives those bytes back.
#[verifier::external_body]
fn base64_decode(text: &str) -> (r: core::result::Result<Vec<u8>, base64::DecodeError>)
    ensures
        r matches Ok(b) ==> base64_spec(b@) == text@,
        (exists|b: Seq<u8>| base64_spec(b) == text@) ==> r is Ok,
{
    base64::engine::general_purpose::STANDARD.decode(text)
}

/// The RGB bytes of RGBA pixels: alpha dropped, a trailing partial pixel
/// ignored.
pub open spec fn rgb_spec(rgba: Seq<u8>) -> Seq<u8> {
    Seq::new(((rgba.len() / 4) * 3) as nat, |k: int| rgba[(k / 3) * 4 + k % 3])
}

pub fn rgba_to_rgb(rgba: &Vec<u8>) -> (r: Vec<u8>)
    ensures
        r@ == rgb_spec(rgba@),
{
    let len = rgba.len();
    let n = len / 4;
    let mut out: Vec<u8> = Vec::new();
    let mut i: usize = 0;
    while i < n
        invariant
            len == rgba@.len(),
            n == len / 4,
            i <= n,
            out@.len() == 3 * i,
            forall|k: int| 0 <= k < out@.len() ==> #[trigger] out@[k] == rgba@[(k / 3) * 4 + k % 3],
        decreases n - i,
    {
        proof {
            assert(i * 4 + 3 < len) by (nonlinear_arith)
                requires
                    i < n,
                    n == len / 4,
            ;
            lemma_fundamental_div_mod_converse(3 * i as int, 3, i as int, 0);
            lemma_fundamental_div_mod_converse(3 * i as int + 1, 3, i as int, 1);
            lemma_fundamental_div_mod_converse(3 * i as int + 2, 3, i as int, 2);
        }
        let o = i * 4;
        out.push(rgba[o]);
        out.push(rgba[o + 1]);
        out.push(rgba[o + 2]);
        i = i + 1;
    }
    proof {
        assert(3 * n == (len / 4) * 3);
    }
    assert(out@ =~= rgb_spec(rgba@));
    out
}

impl CapturedImage {
    /// The image as a PNG file.
    pub fn encode_png(&self) -> (r: Result<Vec<u8>>)
        requires
            self.wf(),
        ensures
            r matches Ok(b) ==> png_encoding(self.rgba@, self.width, self.height) == Some(b@),
            r is Err ==> png_encoding(self.rgba@, self.width, self.height) is None && r matches Err(
                WinScreenError::Image(_),
            ),
    {
        match png_write(self.rgba.as_slice(), self.width, self.height) {
            Ok(b) => Ok(b),
            Err(e) => Err(WinScreenError::Image(e)),
        }
    }

    /// The image as a JPEG file at the given quality (alpha dropped).
    pub fn encode_jpeg(&self, quality: u8) -> (r: Result<Vec<u8>>)
        requires
            self.wf(),
        ensures
            r matches Ok(b) ==> jpeg_encoding(rgb_spec(self.rgba@), self.width, self.height, quality) == Some(b@),
            r is Err ==> jpeg_encoding(rgb_spec(self.rgba@), self.width, self.height, quality) is None
                && r matches Err(WinScreenError::Image(_)),
    {
        let rgb = rgba_to_rgb(&self.rgba);
        proof {
            assert(self.rgba@.len() / 4 == self.width as int * self.height as int) by (nonlinear_arith)
                requires
                    self.rgba@.len() == self.width as int * self.height as int * 4,
            ;
        }
        match jpeg_write(rgb.as_slice(), self.width, self.height, quality) {
            Ok(b) => Ok(b),
            Err(e) => Err(WinScreenError::Image(e)),
        }
    }

    /// Decodes an encoded image file (its format guessed from its bytes).
    pub fn decode(bytes: &[u8]) -> (r: Result<CapturedImage>)
        ensures
            decoded_rgba(bytes@) is None ==> r matches Err(WinScreenError::Image(_)),
            decoded_rgba(bytes@) matches Some((w, h, px)) ==> (rgba_len(w, h) <= u32::MAX ==> (r matches Ok(img)
                && img.width == w && img.height == h && img.rgba@ == px)) && (rgba_len(w, h) > u32::MAX ==> r matches Err(
                WinScreenError::ImageTooLarge,
            )),
            r matches Ok(img) ==> img.wf(),
    {
        match decode_rgba(bytes) {
            Ok((w, h, px)) => CapturedImage::new(w, h, px),
            Err(e) => Err(WinScreenError::Image(e)),
        }
    }
}

/// Base64 of a byte buffer, standard alphabet, padded.
pub fn encode_base64(bytes: &Vec<u8>) -> (s: String)
    requires
        bytes@.len() * 2 <= usize::MAX,
    ensures
        s@ == base64_spec(bytes@),
{
    base64_encode(bytes.as_slice())
}

/// The bytes a standard, padded Base64 text encodes; a text that is not
/// the encoding of any bytes is refused.
pub fn decode_base64(text: &str) -> (r: core::result::Result<Vec<u8>, base64::DecodeError>)
    ensures
        r matches Ok(b) ==> base64_spec(b@) == text@,
        (exists|b: Seq<u8>| base64_spec(b) == text@) <==> r is Ok,
{
    base64_decode(text)
}

proof fn lemma_b64_digit_injective(x: int, y: int)
    requires
        0 <= x < 64,
        0 <= y < 64,
        b64_digit(x) == b64_digit(y),
    ensures
        x == y,
{
}

proof fn lemma_base64_len(b: Seq<u8>)
    ensures
        base64_spec(b).len() == (if b.len() % 3 == 0 { b.len() / 3 * 4 } else { (b.len() / 3 + 1) * 4 }),
    decreases b.len(),
{
    if b.len() >= 3 {
        lemma_base64_len(b.subrange(3, b.len() as int));
    }
}

/// Base64 encoding is one-to-one: two buffers with the same encoding are
/// the same.
pub proof fn lemma_base64_injective(a: Seq<u8>, b: Seq<u8>)
    requires
        base64_spec(a) == base64_spec(b),
    ensures
        a == b,
    decreases a.len(),
{
    lemma_base64_len(a);
    lemma_base64_len(b);
    let ea = base64_spec(a);
    if a.len() == 0 {
        assert(b.len() == 0);
        assert(a =~= b);
    } else if a.len() <= 2 || b.len() <= 2 {
        assert(a.len() == b.len());
        assert(ea[0] == base64_spec(b)[0]);
        lemma_b64_digit_injective(a[0] as int / 4, b[0] as int / 4);
        lemma_b64_digit_injective((a[0] as int % 4) * 16 + (if a.len() >= 2 { a[1] as int / 16 } else { 0 }), (b[0] as int % 4) * 16 + (if b.len() >= 2 { b[1] as int / 16 } else { 0 }));
        if a.len() == 2 {
            lemma_b64_digit_injective((a[1] as int % 16) * 4, (b[1] as int % 16) * 4);
        }
        assert(a =~= b);
    } else {
        assert(b.len() >= 3);
        let eb = base64_spec(b);
        assert(ea[0] == eb[0] && ea[1] == eb[1] && ea[2] == eb[2] && ea[3] == eb[3]);
        lemma_b64_digit_injective(a[0] as int / 4, b[0] as int / 4);
        lemma_b64_digit_injective((a[0] as int % 4) * 16 + a[1] as int / 16, (b[0] as int % 4) * 16 + b[1] as int / 16);
        lemma_b64_digit_injective((a[1] as int % 16) * 4 + a[2] as int / 64, (b[1] as int % 16) * 4 + b[2] as int / 64);
        lemma_b64_digit_injective(a[2] as int % 64, b[2] as int % 64);
        let ra = a.subrange(3, a.len() as int);
        let rb = b.subrange(3, b.len() as int);
        assert(base64_spec(a).subrange(4, ea.len() as int) =~= base64_spec(ra));
        assert(base64_spec(b).subrange(4, ea.len() as int) =~= base64_spec(rb));
        lemma_base64_injective(ra, rb);
        let (a0, a1, a2, b0, b1, b2) = (a[0] as int, a[1] as int, a[2] as int, b[0] as int, b[1] as int, b[2] as int);
        assert(a0 == b0 && a1 == b1 && a2 == b2) by (nonlinear_arith)
            requires
                0 <= a0 < 256 && 0 <= a1 < 256 && 0 <= a2 < 256,
                0 <= b0 < 256 && 0 <= b1 < 256 && 0 <= b2 < 256,
                a0 / 4 == b0 / 4,
                (a0 % 4) * 16 + a1 / 16 == (b0 % 4) * 16 + b1 / 16,
                (a1 % 16) * 4 + a2 / 64 == (b1 % 16) * 4 + b2 / 64,
                a2 % 64 == b2 % 64,
        ;
        assert(a =~= b) by {
            assert forall|k: int| 0 <= k < a.len() implies a[k] == b[k] by {
                if k >= 3 {
                    assert(a[k] == ra[k - 3] && b[k] == rb[k - 3]);
                }
            }
        }
    }
}

} // verus!
