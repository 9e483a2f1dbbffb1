use std::cell::RefCell;

use comlink::audio::AudioLevel;
use comlink::clipboard::{ClipboardCommandState, ClipboardReport};
use comlink::config::{Config, ConfigPaths, ResolvedConfig};
use comlink::deps::{DependencyReport, DependencyState};
use comlink::doctor::{
    assess_model_file, build_report_with, data_path_check, microphone_check,
    microphone_probe_check, model_path_check, render_report, report_ok, DataDirFacts, DoctorCheck,
    DoctorOptions, ModelAssessment,
};
use comlink::error::ComlinkError;
use comlink::record::{
    fallback_device, DeviceSource, MicProbe, ProbeOutcome, ResolvedRecordDevice,
};
use comlink::system_audio::{report_from_snapshot, Platform, SystemAudioProbeSnapshot};

#[test]
fn required_missing_dependencies_make_report_unhealthy() {
    let resolved = ResolvedConfig {
        paths: ConfigPaths {
            home_dir: "/home/u".to_string(),
            config_file: "/home/u/config.json".to_string(),
            data_dir: "/home/u/data".to_string(),
            database_file: "/home/u/data/history.sqlite3".to_string(),
            audio_dir: "/home/u/data/audio".to_string(),
        },
        config: Config::default(),
        sources: vec!["defaults".to_string()],
    };
    let dependencies = DependencyReport {
        ffmpeg: DependencyState::Missing,
        ffprobe: DependencyState::Missing,
        whisper_cpp: DependencyState::Missing,
        whisper_model: DependencyState::NotFound("/missing/model.bin".to_string()),
    };
    let clipboard = ClipboardReport {
        copy: ClipboardCommandState::Found("/usr/bin/pbcopy".to_string()),
        read: ClipboardCommandState::Found("/usr/bin/pbpaste".to_string()),
    };
    let system_audio = report_from_snapshot(
        SystemAudioProbeSnapshot {
            platform: Platform::Other("linux".to_string()),
            audio_input_devices: Vec::new(),
            probe_error: None,
        },
        None,
    );
    let microphone = microphone_check::<FakeProbe>(
        Ok(fallback_device()),
        DoctorOptions { probe_mic: false },
        None,
    );

    let report = build_report_with(
        &resolved,
        &dependencies,
        &clipboard,
        system_audio,
        &Err("No such file or directory".to_string()),
        DataDirFacts::Absent { parent_readonly: Some(false) },
        microphone,
    );

    assert!(!report.ok);
    assert!(report.checks.iter().any(|check| {
        check.name == "model-path" && check.status == "missing" && check.required
    }));
    assert!(report.checks.iter().any(|check| check.name == "microphone"));
    assert!(report
        .checks
        .iter()
        .any(|check| check.name == "system-audio" && !check.required));
    assert_eq!(report.system_audio.strategy, "blackhole-virtual-audio-device");
    assert!(report
        .system_audio
        .source_metadata
        .labels
        .contains(&"user_mic".to_string()));
    let text = render_report(&report);
    assert!(text.starts_with("Comlink doctor\n  offline core: enabled\n"));
    assert!(text.contains("  data_dir: /home/u/data\n"));
}

#[test]
fn model_assessment_uses_strict_size_threshold() {
    assert!(matches!(
        assess_model_file(0, "ggml-base.bin"),
        ModelAssessment::LooksLikeStub { .. }
    ));
    assert!(matches!(
        assess_model_file(9_999_999, "ggml-base.bin"),
        ModelAssessment::LooksLikeStub { .. }
    ));
    assert_eq!(assess_model_file(10_000_000, "ggml-base.bin"), ModelAssessment::Real);
    assert_eq!(assess_model_file(31_000_000, "ggml-tiny-q5_1.bin"), ModelAssessment::Real);
}

#[test]
fn model_assessment_flags_for_tests_basename_regardless_of_size() {
    match assess_model_file(200_000_000, "ggml-for-tests-base.bin") {
        ModelAssessment::LooksLikeStub { reason } => assert!(reason.contains("test model")),
        other => panic!("expected stub, got {other:?}"),
    }
}

#[test]
fn model_path_check_warns_on_stub_but_stays_required() {
    let check =
        model_path_check(&DependencyState::Found("/m/ggml-tiny.bin".to_string()), &Ok(11));

    assert_eq!(check.status, "warn");
    assert!(check.required);
    assert!(check.detail.contains("test stub / not a real model (11 bytes)"));
    assert!(check.remediation.contains("comlink models select"));
}

#[test]
fn model_path_check_only_inspects_basename_for_test_marker() {
    let model = "/m/for-tests-models/ggml-base.bin".to_string();
    assert_eq!(model_path_check(&DependencyState::Found(model), &Ok(16 << 20)).status, "ok");

    let stub = "/m/ggml-for-tests-x.bin".to_string();
    assert_eq!(model_path_check(&DependencyState::Found(stub), &Ok(16 << 20)).status, "warn");
}

#[test]
fn model_path_check_warns_when_metadata_is_unreadable() {
    let check = model_path_check(
        &DependencyState::Found("/m/vanished.bin".to_string()),
        &Err("No such file or directory".to_string()),
    );

    assert_eq!(check.status, "warn");
    assert!(check.detail.contains("could not read model file size"));
}

fn check(name: &str, status: &str, required: bool) -> DoctorCheck {
    DoctorCheck {
        name: name.to_string(),
        status: status.to_string(),
        required,
        path: None,
        detail: String::new(),
        remediation: String::new(),
    }
}

#[test]
fn required_warn_keeps_report_ok_but_missing_does_not() {
    assert!(report_ok(&[
        check("ffmpeg", "ok", true),
        check("model-path", "warn", true),
        check("microphone", "warn", false),
    ]));
    assert!(!report_ok(&[check("ffmpeg", "ok", true), check("model-path", "missing", true)]));
    assert!(!report_ok(&[check("ffmpeg", "bad", true)]));
}

struct FakeProbe {
    outcome: ProbeOutcome,
    calls: RefCell<Vec<String>>,
}

impl FakeProbe {
    fn new(outcome: ProbeOutcome) -> Self {
        Self { outcome, calls: RefCell::new(Vec::new()) }
    }
}

impl MicProbe for FakeProbe {
    fn probe(&self, device: &str) -> ProbeOutcome {
        self.calls.borrow_mut().push(device.to_string());
        self.outcome.clone()
    }
}

fn level(mean_dbfs: f64) -> AudioLevel {
    AudioLevel {
        mean_dbfs: format!("{mean_dbfs:.1}"),
        peak_dbfs: format!("{:.1}", mean_dbfs + 10.0),
        near_silent: mean_dbfs <= -60.0,
    }
}

#[test]
fn microphone_check_never_probes_without_flag() {
    let fake = FakeProbe::new(ProbeOutcome::TimedOut);

    let result = microphone_check(
        Ok(fallback_device()),
        DoctorOptions { probe_mic: false },
        Some(&fake),
    );

    assert!(fake.calls.borrow().is_empty());
    assert_eq!(result.status, "info");
    assert!(!result.required);
    assert!(result.remediation.contains("--probe-mic"));
}

#[test]
fn microphone_check_probes_the_resolved_device_when_flagged() {
    let fake = FakeProbe::new(ProbeOutcome::Level(level(-120.0)));

    let result = microphone_check(
        Ok(fallback_device()),
        DoctorOptions { probe_mic: true },
        Some(&fake),
    );

    assert_eq!(fake.calls.borrow().as_slice(), [":0".to_string()]);
    assert_eq!(result.status, "warn");
    assert!(result.detail.contains("no signal from device :0"));
}

#[test]
fn microphone_probe_outcomes_map_to_ok_or_warn_never_fail() {
    let device = ResolvedRecordDevice {
        avfoundation_input: ":1".to_string(),
        name: Some("MacBook Pro Microphone".to_string()),
        source: DeviceSource::SystemDefault,
    };
    let cases = [
        (ProbeOutcome::Level(level(-25.0)), "ok", "heard signal"),
        (
            ProbeOutcome::Level(level(-90.0)),
            "warn",
            "no signal from device MacBook Pro Microphone (:1) (mean -90.0 dBFS",
        ),
        (
            ProbeOutcome::CaptureFailed { stderr_tail: "Input/output error".to_string() },
            "warn",
            "Input/output error",
        ),
        (ProbeOutcome::TimedOut, "warn", "timed out"),
        (ProbeOutcome::Unmeasurable, "warn", "could not be measured"),
    ];
    for (outcome, status, needle) in cases {
        let result = microphone_probe_check(&device, outcome);
        assert_eq!(result.status, status);
        assert!(!result.required);
        assert!(result.detail.contains(needle), "{}", result.detail);
    }
    let silent = microphone_probe_check(&device, ProbeOutcome::Level(level(-90.0)));
    assert!(silent.remediation.contains("COMLINK_RECORD_DEVICE"));
}

#[test]
fn microphones_and_directories_that_cannot_be_used_are_told() {
    let lost = microphone_check::<FakeProbe>(
        Err(ComlinkError::AudioCaptureFailed("no such device".to_string())),
        DoctorOptions { probe_mic: true },
        None,
    );
    assert_eq!(lost.status, "warn");
    assert!(!lost.required);
    let facts = DataDirFacts::Present { directory: true, readonly: true };
    assert_eq!(data_path_check("/d", facts).status, "bad");
    let facts = DataDirFacts::Present { directory: true, readonly: false };
    assert_eq!(data_path_check("/d", facts).status, "ok");
    let facts = DataDirFacts::Absent { parent_readonly: None };
    assert_eq!(data_path_check("/d", facts).status, "bad");
}
