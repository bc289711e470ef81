use win_screen_core::io::{decode_base64, encode_base64, rgba_to_rgb};
use win_screen_core::{CapturedImage, WinScreenError};

fn sample() -> CapturedImage {
    CapturedImage::new(2, 1, vec![255, 0, 0, 255, 0, 0, 255, 128]).unwrap()
}

#[test]
fn png_round_trips_through_the_decoder() {
    let png = sample().encode_png().unwrap();
    assert_eq!(&png[0..4], &[0x89, b'P', b'N', b'G']);
    let back = CapturedImage::decode(&png).unwrap();
    assert_eq!(back.width, 2);
    assert_eq!(back.height, 1);
    assert_eq!(back.rgba, sample().rgba);
}

#[test]
fn jpeg_is_written_without_alpha() {
    let jpg = sample().encode_jpeg(90).unwrap();
    assert_eq!(&jpg[0..2], &[0xff, 0xd8]);
    let back = CapturedImage::decode(&jpg).unwrap();
    assert_eq!((back.width, back.height), (2, 1));
    assert_eq!(back.rgba[3], 255);
}

#[test]
fn undecodable_bytes_are_refused() {
    assert!(matches!(
        CapturedImage::decode(b"not an image"),
        Err(WinScreenError::Image(_))
    ));
}

#[test]
fn base64_standard_padded() {
    assert_eq!(encode_base64(&b"hello".to_vec()), "aGVsbG8=");
    assert_eq!(encode_base64(&Vec::new()), "");
    assert_eq!(encode_base64(&vec![0xff]), "/w==");
    assert_eq!(encode_base64(&vec![0xfb, 0xef, 0xbe]), "++++");
    assert_eq!(decode_base64("aGVsbG8=").unwrap(), b"hello".to_vec());
    assert!(decode_base64("aGVsbG8").is_err());
    assert!(decode_base64("!!!!").is_err());
    assert!(decode_base64("AB==").is_err());
}

#[test]
fn base64_round_trip() {
    let bytes: Vec<u8> = (0..=255).collect();
    let text = encode_base64(&bytes);
    assert_eq!(decode_base64(&text).unwrap(), bytes);
}

#[test]
fn rgb_drops_alpha() {
    assert_eq!(rgba_to_rgb(&vec![1, 2, 3, 4, 5, 6, 7, 8, 9]), vec![1, 2, 3, 5, 6, 7]);
}
