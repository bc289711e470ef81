use win_screen_core::recording;
use std::path::PathBuf;
use win_screen_core::api::{AudioOptions, HandleIds, Recorder, RecordingHandle, RecordingTarget};
use win_screen_core::capture::Bounds;
use win_screen_core::record::{
    audio_plan, find_monitor_for_region, flip_rows, is_ieee_float, mix_sample, overlap_area,
    pause, pause_recording, pcm32_to_i16, recording_source, register, remix_channels, resume,
    resume_recording, sample_source, samples_to_le_bytes, start_recording, stop, stop_recording,
    AudioMixer, AudioPlan, RecordingRegistry, RecordingSource, SampleSource, SUBTYPE_IEEE_FLOAT,
};
use win_screen_core::{Rect, WinScreenError};

fn b(left: i32, top: i32, right: i32, bottom: i32) -> Bounds {
    Bounds { left, top, right, bottom }
}

#[test]
fn overlap_area_of_rectangles() {
    assert_eq!(overlap_area(0, 0, 10, 10, 5, 5, 20, 20), 25);
    assert_eq!(overlap_area(0, 0, 10, 10, 10, 0, 20, 10), 0);
    assert_eq!(overlap_area(0, 0, 10, 10, 50, 50, 60, 60), 0);
}

#[test]
fn region_goes_to_monitor_it_overlaps_most() {
    let monitors = vec![Some(b(0, 0, 1920, 1080)), None, Some(b(1920, 0, 3840, 1080))];
    let rect = Rect { x: 1800, y: 100, width: 300, height: 200 };
    let (idx, crop, w, h) = find_monitor_for_region(rect, &monitors).unwrap();
    assert_eq!(idx, 2);
    assert_eq!(crop, (0, 100, 180, 300));
    assert_eq!((w, h), (180, 200));
}

#[test]
fn equal_overlap_keeps_the_first_monitor() {
    let monitors = vec![Some(b(0, 0, 100, 100)), Some(b(100, 0, 200, 100))];
    let rect = Rect { x: 50, y: 0, width: 100, height: 10 };
    let (idx, crop, w, h) = find_monitor_for_region(rect, &monitors).unwrap();
    assert_eq!(idx, 0);
    assert_eq!(crop, (50, 0, 100, 10));
    assert_eq!((w, h), (50, 10));
}

#[test]
fn region_off_every_monitor_is_refused() {
    let monitors = vec![Some(b(0, 0, 1920, 1080))];
    let rect = Rect { x: 5000, y: 5000, width: 10, height: 10 };
    assert!(matches!(
        find_monitor_for_region(rect, &monitors),
        Err(WinScreenError::NotImplemented { feature: "no monitor intersects the requested region" })
    ));
    assert!(matches!(
        find_monitor_for_region(rect, &vec![None]),
        Err(WinScreenError::NotImplemented { feature: "no monitor intersects the requested region" })
    ));
}

#[test]
fn recording_targets_resolve() {
    assert_eq!(recording_source(RecordingTarget::Fullscreen).unwrap(), RecordingSource::Primary);
    assert_eq!(recording_source(RecordingTarget::Monitor(2)).unwrap(), RecordingSource::Monitor(2));
    let r = Rect { x: 1, y: 2, width: 3, height: 4 };
    assert_eq!(recording_source(RecordingTarget::Region(r)).unwrap(), RecordingSource::Region(r));
    assert!(matches!(
        recording_source(RecordingTarget::Window(5)),
        Err(WinScreenError::NotImplemented {
            feature: "recording target (Fullscreen, Monitor, and Region are supported)"
        })
    ));
}

#[test]
fn audio_plans() {
    assert_eq!(audio_plan(AudioOptions { system: false, microphone: false }), AudioPlan::Silent);
    assert_eq!(audio_plan(AudioOptions { system: true, microphone: true }), AudioPlan::Mixed);
    assert_eq!(
        audio_plan(AudioOptions { system: true, microphone: false }),
        AudioPlan::Single { system: true }
    );
    assert_eq!(
        audio_plan(AudioOptions { system: false, microphone: true }),
        AudioPlan::Single { system: false }
    );
    assert_eq!(AudioOptions::default(), AudioOptions { system: true, microphone: false });
}

#[test]
fn registry_pauses_resumes_and_stops() {
    let mut reg: RecordingRegistry<String> = RecordingRegistry::new();
    assert!(matches!(
        pause(&mut reg, 5),
        Err(WinScreenError::NotImplemented { feature: "recording id not found (pause)" })
    ));
    assert!(matches!(
        resume(&mut reg, 5),
        Err(WinScreenError::NotImplemented { feature: "recording id not found (resume)" })
    ));
    register(&mut reg, 1, "a.mp4".to_string());
    assert_eq!(reg.is_paused(1), Some(false));
    pause(&mut reg, 1).unwrap();
    assert_eq!(reg.is_paused(1), Some(true));
    resume(&mut reg, 1).unwrap();
    assert_eq!(reg.is_paused(1), Some(false));
    assert_eq!(reg.get(1), Some(&"a.mp4".to_string()));
    assert_eq!(stop(&mut reg, 1).unwrap(), "a.mp4");
    assert!(matches!(
        stop(&mut reg, 1),
        Err(WinScreenError::NotImplemented { feature: "recording id not found (stop)" })
    ));
    assert_eq!(reg.is_paused(1), None);
}

#[test]
fn handles_drive_the_registry() {
    let mut ids = HandleIds::new();
    let mut reg: RecordingRegistry<u32> = RecordingRegistry::new();
    let h = RecordingHandle::next(&mut ids);
    assert!(matches!(
        start_recording(&mut reg, h, Err(WinScreenError::UnsupportedPlatform)),
        Err(WinScreenError::UnsupportedPlatform)
    ));
    let h = RecordingHandle::next(&mut ids);
    let h = start_recording(&mut reg, h, Ok(42)).unwrap();
    assert_eq!(h.id(), 2);
    h.pause(&mut reg).unwrap();
    assert_eq!(reg.is_paused(2), Some(true));
    h.resume(&mut reg).unwrap();
    pause_recording(&mut reg, 2).unwrap();
    resume_recording(&mut reg, 2).unwrap();
    assert_eq!(reg.is_paused(2), Some(false));
    assert_eq!(h.stop(&mut reg).unwrap(), 42);
    assert!(stop_recording(&mut reg, 2).is_err());
}

#[test]
fn builder_needs_an_output() {
    assert!(matches!(
        Recorder::builder().build(),
        Err(WinScreenError::NotImplemented { feature: "recording output default path" })
    ));
    let rec = Recorder::builder()
        .target(RecordingTarget::Monitor(1))
        .audio(AudioOptions { system: false, microphone: true })
        .output(PathBuf::from("out.mp4"))
        .build()
        .unwrap();
    assert_eq!(rec.options().target, RecordingTarget::Monitor(1));
    assert_eq!(rec.options().output, PathBuf::from("out.mp4"));
    assert_eq!(rec.options().audio, AudioOptions { system: false, microphone: true });
}

#[test]
fn remixing_channels() {
    assert_eq!(remix_channels(vec![1, 2, 3], 1, 2), vec![1, 1, 2, 2, 3, 3]);
    assert_eq!(remix_channels(vec![1, 2, 3, 4, 5, 6], 3, 2), vec![1, 2, 4, 5]);
    assert_eq!(remix_channels(vec![1, 2, 3, 4], 2, 3), vec![1, 2, 0, 3, 4, 0]);
    assert_eq!(remix_channels(vec![1, 2, 3, 4], 2, 2), vec![1, 2, 3, 4]);
    assert_eq!(remix_channels(vec![1, 2, 3, 4, 5], 2, 1), vec![1, 3]);
}

#[test]
fn mixing_averages_toward_zero() {
    assert_eq!(mix_sample(100, 201), 150);
    assert_eq!(mix_sample(-3, 0), -1);
    assert_eq!(mix_sample(32767, 32767), 32767);
    assert_eq!(mix_sample(-32768, -32768), -32768);
}

#[test]
fn mixer_mixes_common_length_and_keeps_the_rest() {
    let mut m = AudioMixer::new();
    m.push_system(&vec![1, 2, 3]);
    m.push_microphone(&vec![3, 4]);
    assert_eq!(m.take_mixed(), vec![2, 3]);
    assert_eq!(m.take_mixed(), Vec::<i16>::new());
    m.push_microphone(&vec![10]);
    assert_eq!(m.take_mixed(), vec![6]);
}

#[test]
fn samples_become_little_endian_bytes() {
    assert_eq!(samples_to_le_bytes(&vec![1, -2, 256]), vec![1, 0, 0xfe, 0xff, 0, 1]);
}

#[test]
fn pcm32_keeps_the_high_half() {
    assert_eq!(
        pcm32_to_i16(&vec![65536 * 3 + 5, -1, i32::MIN, i32::MAX]),
        vec![3, -1, -32768, 32767]
    );
}

#[test]
fn float_formats_and_packet_kinds() {
    assert!(is_ieee_float(3, 0));
    assert!(is_ieee_float(0xfffe, SUBTYPE_IEEE_FLOAT));
    assert!(!is_ieee_float(0xfffe, 0));
    assert!(!is_ieee_float(1, SUBTYPE_IEEE_FLOAT));
    assert_eq!(sample_source(2, true, 32), SampleSource::Silence);
    assert_eq!(sample_source(0, true, 32), SampleSource::Float32);
    assert_eq!(sample_source(0, false, 16), SampleSource::Pcm16);
    assert_eq!(sample_source(0, false, 32), SampleSource::Pcm32);
    assert_eq!(sample_source(1, false, 24), SampleSource::Unsupported);
}

#[test]
fn frames_flip_upside_down() {
    let data = vec![1, 2, 3, 4, 5, 6, 7, 8, 9];
    assert_eq!(flip_rows(&data, 1, 2), vec![5, 6, 7, 8, 1, 2, 3, 4, 0]);
    assert_eq!(flip_rows(&data, 0, 0), vec![0; 9]);
}

#[test]
fn recording_by_request_is_not_implemented_yet() {
    let options = Recorder::builder().output(PathBuf::from("out.mp4")).build().unwrap().options().clone();
    assert!(matches!(
        recording::start_recording(options),
        Err(WinScreenError::NotImplemented { feature: "WGC/MP4 recording" })
    ));
    assert!(matches!(recording::pause_recording(1), Err(WinScreenError::NotImplemented { feature: "recording pause" })));
    assert!(matches!(recording::resume_recording(1), Err(WinScreenError::NotImplemented { feature: "recording resume" })));
    assert!(matches!(recording::stop_recording(1), Err(WinScreenError::NotImplemented { feature: "recording stop" })));
}

#[test]
fn builder_start_builds_then_starts() {
    let mut ids = HandleIds::new();
    let mut reg: RecordingRegistry<u32> = RecordingRegistry::new();
    let h = RecordingHandle::next(&mut ids);
    let mut called = false;
    let refused = Recorder::builder().start(&mut reg, h, |_| {
        called = true;
        Ok(1)
    });
    assert!(matches!(refused, Err(WinScreenError::NotImplemented { feature: "recording output default path" })));
    assert!(!called);
    assert_eq!(reg.is_paused(1), None);
    let h = RecordingHandle::next(&mut ids);
    let started = Recorder::builder()
        .target(RecordingTarget::Monitor(1))
        .output(PathBuf::from("a.mp4"))
        .start(&mut reg, h, |o| {
            assert_eq!(o.target, RecordingTarget::Monitor(1));
            assert_eq!(o.output, PathBuf::from("a.mp4"));
            Ok(7)
        })
        .unwrap();
    assert_eq!(started.id(), 2);
    assert_eq!(reg.is_paused(2), Some(false));
    assert_eq!(reg.get(2), Some(&7));
}

#[test]
fn recorder_start_passes_on_a_failed_capture() {
    let mut ids = HandleIds::new();
    let mut reg: RecordingRegistry<u32> = RecordingRegistry::new();
    let recorder = Recorder::builder().output(PathBuf::from("b.mp4")).build().unwrap();
    let h = RecordingHandle::next(&mut ids);
    let r = recorder.start(&mut reg, h, |_| Err(WinScreenError::ImageTooLarge));
    assert!(matches!(r, Err(WinScreenError::ImageTooLarge)));
    assert_eq!(reg.is_paused(1), None);
}
