use win_screen_core::plugin::{HotkeyNotRegistered, HotkeyRegistry};
use std::path::PathBuf;
use win_screen_core::api::RecordingTarget;
use win_screen_core::io::{decode_base64, encode_base64};
use win_screen_core::plugin::{
    after_interactive, default_capture_options, default_interactive_options, encode_png_base64,
    finish_steps, image_from_base64, FinishSteps, PinImageOptions, PinImageSource, PluginError,
    RecordingOptions, RegionCaptureOptions,
};
use win_screen_core::{CapturedImage, Rect, WinScreenError};

fn request(region: Option<[i32; 4]>, monitor: Option<u32>) -> RecordingOptions {
    RecordingOptions {
        output: PathBuf::from("out.mp4"),
        system_audio: None,
        microphone: None,
        monitor,
        region,
    }
}

#[test]
fn region_wins_over_monitor() {
    assert_eq!(
        request(Some([1, 2, 3, 4]), Some(1)).target().unwrap(),
        RecordingTarget::Region(Rect { x: 1, y: 2, width: 3, height: 4 })
    );
    assert!(matches!(
        request(Some([1, 2, 0, 4]), None).target(),
        Err(WinScreenError::InvalidRect(_))
    ));
    assert_eq!(
        request(Some([0, 0, -1, 5]), None).target().unwrap(),
        RecordingTarget::Region(Rect { x: 0, y: 0, width: u32::MAX, height: 5 })
    );
    assert_eq!(request(None, Some(1)).target().unwrap(), RecordingTarget::Monitor(1));
    assert_eq!(request(None, None).target().unwrap(), RecordingTarget::Fullscreen);
}

#[test]
fn recording_audio_defaults() {
    let a = request(None, None).audio();
    assert!(a.system && !a.microphone);
    let mut r = request(None, None);
    r.system_audio = Some(false);
    r.microphone = Some(true);
    let a = r.audio();
    assert!(!a.system && a.microphone);
}

#[test]
fn capture_option_defaults_and_steps() {
    assert_eq!(
        finish_steps(&default_capture_options()),
        FinishSteps { clipboard: false, save: false, inline_base64: false }
    );
    let i = default_interactive_options();
    assert_eq!(i.clipboard, Some(true));
    let after = after_interactive(&i);
    assert_eq!(after.clipboard, Some(false));
    assert!(after.save_path.is_none());
    let region = RegionCaptureOptions {
        x: 5,
        y: 6,
        width: 0,
        height: 10,
        save_path: Some(PathBuf::from("a.png")),
        clipboard: None,
        inline_base64: Some(true),
    };
    assert!(matches!(region.rect(), Err(WinScreenError::InvalidRect(_))));
    let steps = finish_steps(&region.capture_options());
    assert_eq!(steps, FinishSteps { clipboard: false, save: true, inline_base64: true });
}

#[test]
fn pin_image_source_choice() {
    let both = PinImageOptions { path: Some(PathBuf::from("p.png")), base64_image: Some("x".into()) };
    assert!(matches!(both.source(), Ok(PinImageSource::File(p)) if p == PathBuf::from("p.png")));
    let text = PinImageOptions { path: None, base64_image: Some("aGk=".into()) };
    assert!(matches!(text.source(), Ok(PinImageSource::Base64(t)) if t == "aGk="));
    let none = PinImageOptions { path: None, base64_image: None };
    assert!(matches!(none.source(), Err(PluginError::MissingImage)));
}

#[test]
fn images_travel_as_base64_png() {
    let img = CapturedImage::new(1, 2, vec![1, 2, 3, 255, 4, 5, 6, 255]).unwrap();
    let text = encode_png_base64(&img).unwrap();
    let png = decode_base64(&text).unwrap();
    assert_eq!(png, img.encode_png().unwrap());
    let back = image_from_base64(&text).unwrap();
    assert_eq!((back.width, back.height), (1, 2));
    assert_eq!(back.rgba, img.rgba);
    assert!(matches!(image_from_base64("%%%"), Err(PluginError::Base64(_))));
    let junk = encode_base64(&b"junk".to_vec());
    assert!(matches!(
        image_from_base64(&junk),
        Err(PluginError::Core(WinScreenError::Image(_)))
    ));
}

#[test]
fn hotkeys_register_replace_and_unregister() {
    let mut reg: HotkeyRegistry<&str> = HotkeyRegistry::new();
    assert_eq!(reg.register(7, "first"), None);
    assert_eq!(reg.register(7, "second"), Some("first"));
    assert_eq!(reg.register(8, "other"), None);
    assert_eq!(reg.unregister(7), Ok("second"));
    assert_eq!(reg.unregister(7), Err(HotkeyNotRegistered { id: 7 }));
    assert_eq!(reg.unregister(8), Ok("other"));
}
