use comlink::error::ComlinkError;

fn every_variant() -> Vec<ComlinkError> {
    let s = || "a".to_string();
    vec![
        ComlinkError::InputMissing(s()),
        ComlinkError::DependencyMissing("a"),
        ComlinkError::DependencyPathMissing { name: "a", path: s() },
        ComlinkError::DependencyNotExecutable { name: "a", path: s() },
        ComlinkError::ModelMissing,
        ComlinkError::ModelPathMissing(s()),
        ComlinkError::FfmpegFailed(s()),
        ComlinkError::AudioCaptureFailed(s()),
        ComlinkError::WhisperFailed(s()),
        ComlinkError::EmptyTranscript,
        ComlinkError::NoSpeechNearSilent { mean_dbfs: "-120.0".to_string(), device: s() },
        ComlinkError::RecordingTooShort { duration_ms: 1, min_duration_ms: 2 },
        ComlinkError::ClipboardFailed(s()),
        ComlinkError::ConfigHomeMissing("a"),
        ComlinkError::InvalidConfigValue { name: "a", value: s() },
        ComlinkError::ConfigParse { path: s(), source: s() },
        ComlinkError::Storage(s()),
        ComlinkError::HistoryNotFound(s()),
        ComlinkError::MeetingSessionNotFound(s()),
        ComlinkError::MeetingNoActiveSession,
        ComlinkError::MeetingAlreadyActive(s()),
        ComlinkError::MeetingNotRecording(s()),
        ComlinkError::MeetingNotStopped(s()),
        ComlinkError::MeetingExportUnavailable(s()),
        ComlinkError::MeetingExportInvalid { id: s(), path: s(), reason: s() },
        ComlinkError::MeetingNotTranscribing(s()),
        ComlinkError::MeetingLifecycleBusy(s()),
        ComlinkError::MeetingFinalizeLaunchFailed(s()),
        ComlinkError::MeetingStillTranscribing(s()),
        ComlinkError::MeetingFinalizeFailed(s()),
        ComlinkError::MeetingFinalizeFailedDetail { id: s(), error: s() },
        ComlinkError::McpStartDisabled,
        ComlinkError::UnknownConfigKey(s()),
        ComlinkError::MeetingChunkCleanupFailed { id: s(), reason: s() },
        ComlinkError::MeetingSessionUnreadable { id: s(), path: s(), reason: s() },
        ComlinkError::NotFound { kind: "mode", name: s() },
        ComlinkError::ModeNotFound(s()),
        ComlinkError::Io(s()),
        ComlinkError::Json(s()),
    ]
}

#[test]
fn error_codes_are_unique_snake_case_and_stable() {
    let mut seen = std::collections::BTreeMap::new();
    for error in every_variant() {
        let code = error.error_code();
        assert!(!code.is_empty());
        assert!(
            code.chars().all(|c| c.is_ascii_lowercase() || c == '_'),
            "{code} is not snake_case"
        );
        if let Some(previous) = seen.insert(code, format!("{error:?}")) {
            assert_eq!(code, "meeting_finalize_failed", "{code} reused by {previous}");
        }
    }
    assert_eq!(seen.len(), every_variant().len() - 1);
    for (error, code) in [
        (ComlinkError::McpStartDisabled, "mcp_start_disabled"),
        (ComlinkError::MeetingNoActiveSession, "meeting_no_active_session"),
        (ComlinkError::MeetingAlreadyActive("a".into()), "meeting_already_active"),
        (ComlinkError::MeetingStillTranscribing("a".into()), "meeting_still_transcribing"),
        (ComlinkError::MeetingSessionNotFound("a".into()), "meeting_session_not_found"),
        (ComlinkError::ModeNotFound("a".into()), "mode_not_found"),
    ] {
        assert_eq!(error.error_code(), code);
    }
}

#[test]
fn every_error_says_what_is_wrong() {
    for error in every_variant() {
        assert!(error.message().len() > 5, "{error:?}");
        assert!((1..=5).contains(&error.exit_code()), "{error:?}");
    }
    assert_eq!(
        ComlinkError::InputMissing("missing.wav".into()).message(),
        "input file does not exist: missing.wav"
    );
}

#[test]
fn mcp_and_config_errors_name_their_remedy_and_use_general_exit_code() {
    let disabled = ComlinkError::McpStartDisabled;
    assert_eq!(disabled.exit_code(), 1);
    assert!(disabled.message().contains("comlink config set mcp.allow_start true"));

    let detail = ComlinkError::MeetingFinalizeFailedDetail {
        id: "s1".into(),
        error: "whisper.cpp failed: boom".into(),
    };
    assert_eq!(
        detail.exit_code(),
        ComlinkError::MeetingFinalizeFailed("s1".into()).exit_code()
    );
    let message = detail.message();
    assert!(message.contains("whisper.cpp failed: boom"));
    assert!(message.contains("comlink meet finalize s1"));

    let unknown = ComlinkError::UnknownConfigKey("mcp.nope".into());
    assert_eq!(unknown.exit_code(), 1);
    assert!(unknown.message().contains("mcp.allow_start"));
}

#[test]
fn recording_too_short_uses_no_speech_exit_code() {
    let error = ComlinkError::RecordingTooShort { duration_ms: 0, min_duration_ms: 300 };

    assert_eq!(error.exit_code(), 4);
    assert!(error.message().contains("recording too short"));
}

#[test]
fn near_silent_no_speech_keeps_exit_code_four_and_names_remediation() {
    let error = ComlinkError::NoSpeechNearSilent {
        mean_dbfs: "-120.0".to_string(),
        device: ":0".to_string(),
    };

    assert_eq!(error.exit_code(), 4);
    let message = error.message();
    assert!(message.contains("near-silent"));
    assert!(message.contains("-120.0 dBFS"));
    assert!(message.contains("COMLINK_RECORD_DEVICE"));
    assert!(message.contains("doctor --probe-mic"));
}

#[test]
fn phase_four_exit_codes_cover_agent_contract_cases() {
    assert_eq!(ComlinkError::InputMissing("missing.wav".into()).exit_code(), 1);
    assert_eq!(ComlinkError::ModelMissing.exit_code(), 3);
    assert_eq!(ComlinkError::EmptyTranscript.exit_code(), 4);
    assert_eq!(ComlinkError::ClipboardFailed("pbcopy failed".to_string()).exit_code(), 5);
}

#[test]
fn meeting_lifecycle_errors_use_general_exit_code() {
    assert_eq!(ComlinkError::MeetingNotTranscribing("s1".to_string()).exit_code(), 1);
    assert_eq!(ComlinkError::MeetingLifecycleBusy("s1".to_string()).exit_code(), 1);
    assert_eq!(
        ComlinkError::MeetingFinalizeLaunchFailed("spawn failed".to_string()).exit_code(),
        1
    );
    assert_eq!(ComlinkError::MeetingStillTranscribing("s1".to_string()).exit_code(), 1);
    assert_eq!(ComlinkError::MeetingFinalizeFailed("s1".to_string()).exit_code(), 1);
    assert_eq!(
        ComlinkError::MeetingChunkCleanupFailed {
            id: "s1".to_string(),
            reason: "denied".to_string(),
        }
        .exit_code(),
        1
    );
    assert_eq!(
        ComlinkError::MeetingExportInvalid {
            id: "s1".to_string(),
            path: "s1/transcript.json".into(),
            reason: "eof".to_string(),
        }
        .exit_code(),
        1
    );
    assert_eq!(
        ComlinkError::MeetingSessionUnreadable {
            id: "s1".to_string(),
            path: "s1/session.json".into(),
            reason: "eof".to_string(),
        }
        .exit_code(),
        1
    );
    assert_eq!(ComlinkError::WhisperFailed("mock".to_string()).exit_code(), 3);
}
