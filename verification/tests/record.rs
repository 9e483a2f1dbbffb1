use comlink::audio::AudioLevel;
use comlink::error::ComlinkError;
use comlink::record::{
    chunk_output_pattern, diagnose_record_level, fallback_device, keep_tail, map_empty_transcript,
    near_silent_hint, poll_stopping_recorder, printed_value, probe_outcome, probe_setup_failure,
    process_identity, process_identity_is_running, read_capped_tail, recording_arguments,
    recording_duration, resolve_record_device, segmented_capture_arguments,
    segmented_capture_is_running, select_record_device_request, signal_after_group,
    signal_after_leader, signal_start, stop_next, stop_start, wait_step, DeviceSource, ExitStatus,
    FfmpegMicProbe, ProbeOutcome, ProbePoll, ProcessFacts, ProcessIdentity, RecorderPoll,
    SegmentedCaptureIdentity, SignalStep, StopPhase, StopStep, WaitStep,
};
use comlink::system_audio::DeviceMatch;

#[test]
fn device_request_precedence_prefers_flag_then_env_and_ignores_blank() {
    assert_eq!(
        select_record_device_request(Some(":2".into()), Some(":1".into())),
        Some((":2".to_string(), DeviceSource::Flag))
    );
    assert_eq!(
        select_record_device_request(None, Some(" Studio Mic ".into())),
        Some(("Studio Mic".to_string(), DeviceSource::Env))
    );
    assert_eq!(
        select_record_device_request(Some("  ".into()), Some(":1".into())),
        Some((":1".to_string(), DeviceSource::Env))
    );
    assert_eq!(select_record_device_request(None, Some(String::new())), None);
    assert_eq!(select_record_device_request(None, None), None);
}

fn silent_level() -> AudioLevel {
    AudioLevel {
        mean_dbfs: "-120.0".to_string(),
        peak_dbfs: "-120.0".to_string(),
        near_silent: true,
    }
}

fn speech_level() -> AudioLevel {
    AudioLevel {
        mean_dbfs: "-25.0".to_string(),
        peak_dbfs: "-3.0".to_string(),
        near_silent: false,
    }
}

#[test]
fn diagnose_record_level_flags_only_near_silent_measurements() {
    assert_eq!(diagnose_record_level(Some(silent_level())), Some(silent_level()));
    assert_eq!(diagnose_record_level(Some(speech_level())), None);
    assert_eq!(diagnose_record_level(None), None);
}

#[test]
fn map_empty_transcript_upgrades_only_near_silent_empty_transcripts() {
    let mapped = map_empty_transcript(ComlinkError::EmptyTranscript, Some(silent_level()), ":0");
    match &mapped {
        ComlinkError::NoSpeechNearSilent { mean_dbfs, device } => {
            assert_eq!(mean_dbfs, "-120.0");
            assert_eq!(device, ":0");
        }
        other => panic!("expected NoSpeechNearSilent, got {other:?}"),
    }
    assert_eq!(mapped.exit_code(), 4);

    assert!(matches!(
        map_empty_transcript(ComlinkError::EmptyTranscript, None, ":0"),
        ComlinkError::EmptyTranscript
    ));
    assert!(matches!(
        map_empty_transcript(
            ComlinkError::WhisperFailed("boom".into()),
            Some(silent_level()),
            ":0"
        ),
        ComlinkError::WhisperFailed(_)
    ));
}

#[test]
fn capped_tail_keeps_only_last_bytes() {
    let data = format!("{}END", "x".repeat(10_000));
    let tail = read_capped_tail(data.as_bytes(), 16);
    assert_eq!(tail.len(), 16);
    assert!(tail.ends_with("END"));
}

#[test]
fn tails_grow_piece_by_piece() {
    let mut kept = Vec::new();
    keep_tail(&mut kept, b"abc", 4);
    keep_tail(&mut kept, b"de", 4);
    assert_eq!(kept, b"bcde");
    assert_eq!(read_capped_tail(b" \xfftail \n", 100), "\u{fffd}tail");
}

#[test]
fn hanging_probes_are_killed_at_the_deadline() {
    let probe =
        FfmpegMicProbe { ffmpeg: "ffmpeg".to_string(), capture_ms: 100, deadline_ms: 2_000 };
    assert_eq!(probe.poll(Some(false), 1_999), ProbePoll::Wait);
    assert_eq!(probe.poll(Some(false), 2_000), ProbePoll::Kill);
    assert_eq!(probe.poll(Some(true), 2_000), ProbePoll::Ended);
    assert_eq!(
        probe_outcome(true, None, String::new(), false, None),
        ProbeOutcome::TimedOut
    );
    let usual = FfmpegMicProbe::new("ffmpeg".to_string());
    assert_eq!(usual.deadline_ms, 5_000);
    let arguments = usual.arguments(":7", "/tmp/probe.wav");
    assert!(arguments.contains(&":7".to_string()));
    assert_eq!(arguments.last().unwrap(), "/tmp/probe.wav");
}

#[test]
fn probe_results_are_told_apart() {
    let status = |success: bool| Some(ExitStatus { success, text: "exit status: 3".to_string() });
    let outcome = probe_outcome(
        false,
        status(false),
        "Input/output error: device :7 not found".to_string(),
        false,
        None,
    );
    match outcome {
        ProbeOutcome::CaptureFailed { stderr_tail } => {
            assert!(stderr_tail.contains("device :7 not found"), "{stderr_tail}")
        }
        other => panic!("expected CaptureFailed, got {other:?}"),
    }
    assert_eq!(
        probe_outcome(false, status(true), String::new(), true, Some(silent_level())),
        ProbeOutcome::Level(silent_level())
    );
    assert_eq!(
        probe_outcome(false, status(true), String::new(), true, None),
        ProbeOutcome::Unmeasurable
    );
    assert!(matches!(
        probe_setup_failure("start ffmpeg", "denied"),
        ProbeOutcome::CaptureFailed { stderr_tail } if stderr_tail.contains("denied")
    ));
}

fn running(command: &str, started_at: &str) -> ProcessFacts {
    ProcessFacts {
        running: true,
        started_at: Some(started_at.to_string()),
        command: Some(command.to_string()),
    }
}

#[test]
fn stop_segmented_capture_does_not_signal_pid_with_wrong_identity() {
    let started_at = "Mon Jan  5 10:00:00 2026";
    let facts = running("sleep 30", started_at);
    let identity = SegmentedCaptureIdentity {
        pid: 77,
        output_pattern: "/tmp/comlink-not-this-recorder/chunk-%05d.wav".to_string(),
        process_started_at: Some(started_at.to_string()),
    };

    let ours = segmented_capture_is_running(&identity, &facts);
    let step = stop_start(ours, 10);

    assert!(!ours);
    assert!(matches!(step, StopStep::Done(false)));
}

#[test]
fn process_identity_requires_matching_start_time_and_command() {
    let started_at = "Mon Jan  5 10:00:00 2026";
    let facts = running("sleep 31", started_at);
    let identity = process_identity(77, Some(started_at.to_string()));
    assert!(identity.process_started_at.is_some());
    assert!(process_identity_is_running(&identity, None, &facts));
    assert!(process_identity_is_running(&identity, Some("sleep 31"), &facts));
    assert!(!process_identity_is_running(
        &identity,
        Some("meet finalize not-this-session"),
        &facts
    ));

    let recycled = ProcessIdentity {
        pid: identity.pid,
        process_started_at: Some("Thu Jan  1 00:00:00 1970".to_string()),
    };
    assert!(!process_identity_is_running(&recycled, None, &facts));

    let gone = ProcessFacts { running: false, started_at: None, command: None };
    assert!(!process_identity_is_running(&identity, None, &gone));
}

#[test]
fn recorders_are_stopped_with_rising_force() {
    let first = stop_start(true, 10);
    assert!(matches!(
        first,
        StopStep::Signal { phase: StopPhase::Interrupted, signal: "INT", wait_ms: 10 }
    ));
    assert!(matches!(stop_next(StopPhase::Interrupted, true, 7), StopStep::Done(true)));
    assert!(matches!(
        stop_next(StopPhase::Interrupted, false, 7),
        StopStep::Signal { phase: StopPhase::Terminated, signal: "TERM", .. }
    ));
    assert!(matches!(
        stop_next(StopPhase::Terminated, false, 7),
        StopStep::Signal { phase: StopPhase::Killed, signal: "KILL", .. }
    ));
    assert!(matches!(stop_next(StopPhase::Killed, false, 7), StopStep::Fail(_)));
    assert!(matches!(signal_start(false, false), SignalStep::Finished));
    assert!(matches!(signal_start(true, true), SignalStep::ToGroup));
    assert!(matches!(signal_after_group(true, true), SignalStep::Finished));
    assert!(matches!(signal_after_group(false, true), SignalStep::ToLeader));
    assert!(matches!(signal_after_leader(false, true, "INT", 7), SignalStep::Fail(_)));
    assert_eq!(wait_step(true, false, 5, 10), WaitStep::Again);
    assert_eq!(wait_step(true, false, 10, 10), WaitStep::TimedOut);
    assert_eq!(wait_step(false, false, 10, 10), WaitStep::Gone);
}

#[test]
fn recordings_end_with_a_duration_or_an_error() {
    assert_eq!(recording_duration(true, true, b"", Some(1200)).unwrap(), 1200);
    assert!(matches!(
        recording_duration(false, false, b"device busy", None),
        Err(ComlinkError::AudioCaptureFailed(text)) if text.contains("device busy")
    ));
    assert_eq!(poll_stopping_recorder(true, 0), RecorderPoll::Ended);
    assert_eq!(poll_stopping_recorder(false, 1_000_000), RecorderPoll::Kill);
    assert_eq!(recording_arguments(":1", "/a.wav").last().unwrap(), "/a.wav");
    assert_eq!(chunk_output_pattern("/c"), "/c/chunk-%05d.wav");
    let arguments = segmented_capture_arguments(":1", 300, "/c");
    assert!(arguments.contains(&"300".to_string()));
    assert_eq!(arguments.last().unwrap(), "/c/chunk-%05d.wav");
    assert_eq!(printed_value(true, b" Mon \n").as_deref(), Some("Mon"));
    assert_eq!(printed_value(true, b" \n"), None);
    assert_eq!(printed_value(false, b"Mon"), None);
}

#[test]
fn devices_come_from_the_request_or_the_system() {
    let found = |input: &str| DeviceMatch {
        avfoundation_input: input.to_string(),
        name: Some("USB Mic".to_string()),
    };
    let asked = resolve_record_device(
        Some((DeviceSource::Flag, Ok(found(":2")))),
        Some(found(":1")),
    )
    .unwrap();
    assert_eq!(asked.avfoundation_input, ":2");
    assert_eq!(asked.label(), "USB Mic (:2)");
    let system = resolve_record_device(None, Some(found(":1"))).unwrap();
    assert_eq!(system.source, DeviceSource::SystemDefault);
    assert_eq!(resolve_record_device(None, None).unwrap(), fallback_device());
    assert!(matches!(
        resolve_record_device(Some((DeviceSource::Env, Err("none".to_string()))), None),
        Err(ComlinkError::AudioCaptureFailed(_))
    ));
    let hint = near_silent_hint(&system, &Some(vec!["USB Mic".to_string()]));
    assert!(hint.contains("USB Mic (:1)"));
}
