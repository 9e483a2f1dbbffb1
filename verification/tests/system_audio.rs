use comlink::deps::{DependencyReport, DependencyState};
use comlink::system_audio::{
    avfoundation_audio_input, fake_snapshot, listed_audio_devices, parse_avfoundation_audio_devices,
    preferred_device_name, report_from_snapshot, resolve_avfoundation_audio_device,
    resolve_capture_plan, snapshot_of, MacOsVersion, Platform, RealSystemAudioProbe,
    SystemAudioProbe, SystemAudioProbeSnapshot,
};

#[test]
fn reports_available_when_blackhole_input_is_present() {
    let report = report_from_snapshot(
        SystemAudioProbeSnapshot {
            platform: Platform::MacOs(Some(MacOsVersion::new(14, 6, 1))),
            audio_input_devices: vec![
                "MacBook Pro Microphone".to_string(),
                "BlackHole 2ch".to_string(),
            ],
            probe_error: None,
        },
        None,
    );

    assert!(report.available);
    assert_eq!(report.status, "ok");
    assert_eq!(report.dependency.device_name.as_deref(), Some("BlackHole 2ch"));
    assert!(report.native_core_audio_tap.supported_by_os);
    assert!(report.source_metadata.labels.contains(&"system_audio".to_string()));
}

#[test]
fn reports_actionable_missing_dependency_on_macos() {
    let report = report_from_snapshot(
        SystemAudioProbeSnapshot {
            platform: Platform::MacOs(Some(MacOsVersion::new(14, 6, 1))),
            audio_input_devices: vec!["MacBook Pro Microphone".to_string()],
            probe_error: None,
        },
        None,
    );

    assert!(!report.available);
    assert_eq!(report.status, "missing-dependency");
    assert!(!report.dependency.present);
    assert!(report.remediation.contains("Install BlackHole"));
}

#[test]
fn configured_device_does_not_mark_microphone_as_system_audio() {
    let report = report_from_snapshot(
        SystemAudioProbeSnapshot {
            platform: Platform::MacOs(Some(MacOsVersion::new(14, 6, 1))),
            audio_input_devices: vec!["MacBook Pro Microphone".to_string()],
            probe_error: None,
        },
        Some("MacBook Pro Microphone".to_string()),
    );

    assert!(!report.available);
    assert_eq!(report.status, "missing-dependency");
    assert!(!report.dependency.present);
    assert!(report.remediation.contains("COMLINK_SYSTEM_AUDIO_DEVICE"));
}

#[test]
fn configured_blackhole_device_can_select_exact_input() {
    let report = report_from_snapshot(
        SystemAudioProbeSnapshot {
            platform: Platform::MacOs(Some(MacOsVersion::new(14, 6, 1))),
            audio_input_devices: vec!["BlackHole 16ch".to_string(), "BlackHole 2ch".to_string()],
            probe_error: None,
        },
        Some("BlackHole 16ch".to_string()),
    );

    assert!(report.available);
    assert_eq!(report.dependency.device_name.as_deref(), Some("BlackHole 16ch"));
}

struct Probe;

impl SystemAudioProbe for Probe {
    fn snapshot(&self) -> SystemAudioProbeSnapshot {
        SystemAudioProbeSnapshot {
            platform: Platform::MacOs(Some(MacOsVersion::new(14, 6, 1))),
            audio_input_devices: vec![
                "MacBook Pro Microphone".to_string(),
                "BlackHole 2ch".to_string(),
            ],
            probe_error: None,
        }
    }
}

#[test]
fn capture_plan_uses_blackhole_as_avfoundation_audio_input() {
    let plan = resolve_capture_plan(&Probe, None).unwrap();

    assert_eq!(plan.device_name, "BlackHole 2ch");
    assert_eq!(plan.avfoundation_input, ":BlackHole 2ch");
}

#[test]
fn reports_probe_error_when_ffmpeg_output_has_no_audio_section() {
    let report = report_from_snapshot(
        SystemAudioProbeSnapshot {
            platform: Platform::MacOs(Some(MacOsVersion::new(14, 6, 1))),
            audio_input_devices: Vec::new(),
            probe_error: Some(
                "ffmpeg AVFoundation device probe did not return an audio device list".to_string(),
            ),
        },
        None,
    );

    assert!(!report.available);
    assert_eq!(report.status, "probe-error");
    assert!(report.detail.contains("did not return"));
}

#[test]
fn reports_wrong_os_without_requiring_host_audio() {
    let report = report_from_snapshot(
        SystemAudioProbeSnapshot {
            platform: Platform::Other("linux".to_string()),
            audio_input_devices: vec!["BlackHole 2ch".to_string()],
            probe_error: None,
        },
        None,
    );

    assert!(!report.available);
    assert_eq!(report.status, "unsupported-os");
    assert!(report.detail.contains("macOS"));
}

#[test]
fn parses_avfoundation_audio_devices() {
    let stderr = "\
[AVFoundation indev @ 0x1] AVFoundation video devices:
[AVFoundation indev @ 0x1] [0] FaceTime HD Camera
[AVFoundation indev @ 0x1] AVFoundation audio devices:
[AVFoundation indev @ 0x1] [0] BlackHole 2ch
[AVFoundation indev @ 0x1] [1] MacBook Pro Microphone
";

    let devices = parse_avfoundation_audio_devices(stderr);

    assert_eq!(
        devices,
        vec!["BlackHole 2ch".to_string(), "MacBook Pro Microphone".to_string()]
    );
    assert_eq!(listed_audio_devices(stderr).unwrap().len(), 2);
    assert!(listed_audio_devices("no devices here").is_err());
}

#[test]
fn parses_macos_versions_with_missing_patch() {
    assert_eq!(MacOsVersion::parse("14.4").unwrap(), MacOsVersion::new(14, 4, 0));
    assert!(MacOsVersion::parse("not-a-version").is_none());
}

#[test]
fn versions_are_written_and_read_back() {
    let version = MacOsVersion::new(15, 0, 2);
    assert_eq!(version.text(), "15.0.2");
    assert_eq!(MacOsVersion::parse(&version.text()), Some(version));
    assert!(MacOsVersion::new(14, 10, 0).at_least(&MacOsVersion::new(14, 4, 9)));
    assert!(!MacOsVersion::new(13, 9, 9).at_least(&MacOsVersion::new(14, 0, 0)));
}

#[test]
fn devices_are_selected_by_name_or_number() {
    let devices = vec!["BlackHole 2ch".to_string(), "USB Mic".to_string()];
    let by_name = resolve_avfoundation_audio_device("usb mic", &devices).unwrap();
    assert_eq!(by_name.avfoundation_input, ":1");
    assert_eq!(by_name.name.as_deref(), Some("USB Mic"));
    let by_number = resolve_avfoundation_audio_device(":0", &devices).unwrap();
    assert_eq!(by_number.avfoundation_input, ":0");
    assert_eq!(by_number.name.as_deref(), Some("BlackHole 2ch"));
    let unknown = resolve_avfoundation_audio_device(":7", &devices).unwrap();
    assert_eq!(unknown.avfoundation_input, ":7");
    assert_eq!(unknown.name, None);
    assert_eq!(
        resolve_avfoundation_audio_device("Ghost", &devices).unwrap_err(),
        "audio input device not found: Ghost"
    );
    assert_eq!(avfoundation_audio_input("USB Mic"), ":USB Mic");
    assert_eq!(avfoundation_audio_input(":1"), ":1");
}

#[test]
fn probes_without_a_device_leave_no_capture_plan() {
    struct Empty;
    impl SystemAudioProbe for Empty {
        fn snapshot(&self) -> SystemAudioProbeSnapshot {
            snapshot_of(Platform::MacOs(None), Some(Ok(vec!["USB Mic".to_string()])))
        }
    }
    assert!(resolve_capture_plan(&Empty, None).unwrap_err().contains("BlackHole"));
    assert_eq!(preferred_device_name(Some("  ".to_string())), None);
    assert_eq!(preferred_device_name(Some(" X ".to_string())).as_deref(), Some("X"));
    let real = RealSystemAudioProbe::new(&DependencyReport {
        ffmpeg: DependencyState::Found("/usr/bin/ffmpeg".to_string()),
        ffprobe: DependencyState::Missing,
        whisper_cpp: DependencyState::Missing,
        whisper_model: DependencyState::Missing,
    });
    assert_eq!(real.ffmpeg.as_deref(), Some("/usr/bin/ffmpeg"));
    assert!(fake_snapshot("blackhole").audio_input_devices.len() <= 2);
}
