use win_screen_core::cli::{audio_from_sources, parse_hwnd, AudioSource, HwndParseError};

#[test]
fn hwnd_in_hex_or_decimal() {
    assert_eq!(parse_hwnd(" 0x1F "), Ok(31));
    assert_eq!(parse_hwnd("0X10"), Ok(16));
    assert_eq!(parse_hwnd("1234"), Ok(1234));
    assert_eq!(parse_hwnd("-5"), Ok(-5));
    assert_eq!(parse_hwnd("+7"), Ok(7));
    assert_eq!(parse_hwnd("0x-1f"), Ok(-31));
    assert_eq!(parse_hwnd("0xABCdef"), Ok(0xabcdef));
}

#[test]
fn bad_hwnds_are_refused() {
    assert_eq!(parse_hwnd(""), Err(HwndParseError::Invalid));
    assert_eq!(parse_hwnd("   "), Err(HwndParseError::Invalid));
    assert_eq!(parse_hwnd("0x"), Err(HwndParseError::InvalidHex));
    assert_eq!(parse_hwnd("12a"), Err(HwndParseError::Invalid));
    assert_eq!(parse_hwnd("0xzz"), Err(HwndParseError::InvalidHex));
    assert_eq!(parse_hwnd("+"), Err(HwndParseError::Invalid));
    assert_eq!(parse_hwnd("1 2"), Err(HwndParseError::Invalid));
    assert_eq!(parse_hwnd("99999999999999999999999"), Err(HwndParseError::Invalid));
}

#[test]
fn hwnd_range_ends() {
    assert_eq!(parse_hwnd(&isize::MAX.to_string()), Ok(isize::MAX));
    assert_eq!(parse_hwnd(&isize::MIN.to_string()), Ok(isize::MIN));
    let over = (isize::MAX as i128 + 1).to_string();
    assert_eq!(parse_hwnd(&over), Err(HwndParseError::Invalid));
}

#[test]
fn audio_sources_turn_options_on() {
    let both = audio_from_sources(&vec![AudioSource::Mic, AudioSource::System]);
    assert!(both.system && both.microphone);
    let none = audio_from_sources(&vec![]);
    assert!(!none.system && !none.microphone);
    let sys = audio_from_sources(&vec![AudioSource::System, AudioSource::System]);
    assert!(sys.system && !sys.microphone);
}
