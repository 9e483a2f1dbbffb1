use comlink::asr::{Segment, SourceMetadata};
use comlink::audio::AudioLevel;
use comlink::cli::{
    check_deterministic_mode, check_prune, check_recording_length, check_removed,
    copy_notice, decode_cli_newlines, llm_privacy_status, processed_text_output, render_history_list,
    render_history_session, render_models, render_prune_result, render_set, render_snippets,
    render_stored_session_markdown, render_vocabulary, set_notice, stop_warning_banner,
    validate_requested_mode, warn_of_silence, StoredSessionOutput,
};
use comlink::clipboard::CopyResult;
use comlink::config::{
    Config, ConfigPaths, ConfigSetOutcome, LocalLlmConfig, ModeEntry, ModelEntry, RetentionConfig,
    SnippetEntry, VocabularyEntry,
};
use comlink::error::ComlinkError;
use comlink::output::{ContextMetadata, ProcessingStep, TextProcessingResult, TranscriptOutput};
use comlink::storage::{
    history_session_id, retained_audio_path, save_step, session_row, show, stored_session,
    PruneResult, SaveStep, StoredSessionSummary,
};

#[test]
fn validate_requested_mode_rejects_unknown_mode_before_asr() {
    let error = validate_requested_mode(&Config::default(), "missing").unwrap_err();

    assert!(matches!(error, ComlinkError::ModeNotFound(mode) if mode == "missing"));
}

#[test]
fn validate_requested_mode_accepts_configured_mode() {
    let mut config = Config::default();
    config.modes.push(ModeEntry {
        name: "prompt".to_string(),
        description: None,
        deterministic_mode: Some("memo".to_string()),
        llm_instruction: Some("Rewrite as a prompt".to_string()),
        style_profile: None,
    });

    validate_requested_mode(&config, "prompt").unwrap();
}

fn sample_transcript() -> TranscriptOutput {
    TranscriptOutput {
        schema_version: "comlink.session.v1".to_string(),
        session_id: "s1-2-3".to_string(),
        text: "hello".to_string(),
        raw_text: "hello".to_string(),
        final_text: "hello".to_string(),
        mode: "raw".to_string(),
        copied: false,
        engine: "whisper.cpp".to_string(),
        model: "model.bin".to_string(),
        duration_ms: 250,
        segments: vec![Segment { start_ms: 0, end_ms: 250, text: "hello".to_string() }],
        source: SourceMetadata {
            path: "short.wav".to_string(),
            normalized_sample_rate_hz: 16_000,
            normalized_channels: 1,
        },
        context: ContextMetadata::default(),
        processing_steps: vec![ProcessingStep { name: "raw".to_string() }],
        warnings: Vec::new(),
        llm: None,
        history_session_id: None,
    }
}

#[test]
fn transcript_retention_can_omit_text_but_keep_metadata() {
    let retention = RetentionConfig { metadata: true, transcripts: false, audio: false };

    let row = session_row(&retention, &sample_transcript(), "s1", 10, None);
    let session = show("s1", Some(row)).unwrap();

    assert_eq!(session.source.path, "short.wav");
    assert_eq!(session.raw_text, None);
    assert_eq!(session.final_text, None);
    assert_eq!(session.segments[0].text, None);
}

#[test]
fn history_keeps_what_retention_allows() {
    let retention = RetentionConfig { metadata: false, transcripts: true, audio: true };
    let row = session_row(
        &retention,
        &sample_transcript(),
        "s1",
        10,
        Some("/a/s1.wav".to_string()),
    );
    let session = stored_session(row);
    assert_eq!(session.id, "s1");
    assert_eq!(session.created_at_ms, 10);
    assert_eq!(session.mode, "\"raw\"");
    assert_eq!(session.source.path, "<redacted>");
    assert_eq!(session.raw_text.as_deref(), Some("hello"));
    assert_eq!(session.duration_ms, 250);
    assert_eq!(session.segments[0].end_ms, 250);
    assert_eq!(session.audio_path.as_deref(), Some("/a/s1.wav"));
    assert!(matches!(
        show("s9", None),
        Err(ComlinkError::HistoryNotFound(id)) if id == "s9"
    ));
    let output = StoredSessionOutput::from_session(session);
    assert_eq!(output.text.as_deref(), Some("hello"));
    assert!(render_stored_session_markdown(&output).contains("hello"));
}

#[test]
fn history_keeps_modes_quoted_and_in_lower_case() {
    let retention = RetentionConfig { metadata: true, transcripts: true, audio: false };
    let transcript =
        TranscriptOutput { mode: "My \"Note\"".to_string(), ..sample_transcript() };
    let session = stored_session(session_row(&retention, &transcript, "s1", 10, None));
    assert_eq!(session.mode, "\"my \\\"note\\\"\"");
}

#[test]
fn audio_is_retained_under_the_session_name() {
    let paths = ConfigPaths {
        home_dir: "/h".to_string(),
        config_file: "/h/config.json".to_string(),
        data_dir: "/h/data".to_string(),
        database_file: "/h/data/history.sqlite3".to_string(),
        audio_dir: "/h/data/audio".to_string(),
    };
    let keep = RetentionConfig { metadata: true, transcripts: true, audio: true };
    let drop = RetentionConfig { metadata: true, transcripts: true, audio: false };
    let audio = Some("/tmp/in.mp3".to_string());
    assert_eq!(
        retained_audio_path(&paths, &keep, &audio, "s1").as_deref(),
        Some("/h/data/audio/s1.mp3")
    );
    assert_eq!(
        retained_audio_path(&paths, &keep, &Some("/tmp/in".to_string()), "s1").as_deref(),
        Some("/h/data/audio/s1.wav")
    );
    assert_eq!(retained_audio_path(&paths, &drop, &audio, "s1"), None);
    assert_eq!(retained_audio_path(&paths, &keep, &None, "s1"), None);
    assert_eq!(history_session_id(17), "s17");
    assert_eq!(save_step(false, true), SaveStep::Skip);
    assert_eq!(save_step(true, false), SaveStep::Disabled);
    assert_eq!(save_step(true, true), SaveStep::Save);
}

#[test]
fn commands_are_checked_before_they_run() {
    assert!(check_recording_length(300, 300).is_ok());
    assert!(matches!(
        check_recording_length(299, 300),
        Err(ComlinkError::RecordingTooShort { duration_ms: 299, min_duration_ms: 300 })
    ));
    assert!(check_prune(true).is_ok());
    assert!(check_prune(false).is_err());
    assert_eq!(check_deterministic_mode("memo".to_string()).unwrap(), "memo");
    assert!(matches!(
        check_deterministic_mode("typo".to_string()),
        Err(ComlinkError::ModeNotFound(_))
    ));
    assert!(check_removed(true, "mode", "a".to_string()).is_ok());
    assert!(matches!(
        check_removed(false, "mode", "a".to_string()),
        Err(ComlinkError::NotFound { kind: "mode", name }) if name == "a"
    ));
    assert_eq!(decode_cli_newlines("a\\nb"), "a\nb");
}

#[test]
fn settings_that_the_environment_overrides_are_told() {
    let outcome = |env_override: Option<&str>| ConfigSetOutcome {
        key: "mcp.allow_start",
        value: true,
        config_file: "/c/config.json".to_string(),
        env_override: env_override.map(str::to_string),
    };
    assert_eq!(set_notice(&outcome(None)), None);
    assert!(set_notice(&outcome(Some("false")))
        .unwrap()
        .contains("COMLINK_MCP_ALLOW_START"));
    assert!(render_set(&outcome(None)).contains("mcp.allow_start"));
}

#[test]
fn lists_are_rendered_line_by_line() {
    let summary = StoredSessionSummary {
        id: "s1".to_string(),
        created_at_ms: 10,
        mode: "raw".to_string(),
        engine: "whisper.cpp".to_string(),
        model: "model.bin".to_string(),
        duration_ms: 250,
        source_path: "short.wav".to_string(),
        has_transcript: true,
        has_audio: false,
        segment_count: 1,
    };
    assert_eq!(render_history_list(&vec![summary.clone(), summary]).lines().count(), 2);
    let retention = RetentionConfig { metadata: true, transcripts: true, audio: false };
    let row = session_row(&retention, &sample_transcript(), "s1", 10, None);
    assert!(render_history_session(&stored_session(row)).contains("hello"));
    let pruned =
        PruneResult { sessions_deleted: 2, segments_deleted: 3, audio_files_deleted: 0 };
    let text = render_prune_result(&pruned);
    assert!(text.contains('2') && text.contains('3'), "{text}");
    let models = vec![ModelEntry {
        name: "base".to_string(),
        path: "/m.bin".to_string(),
        selected: true,
    }];
    assert!(render_models(&models).contains("base"));
    let vocabulary =
        vec![VocabularyEntry { phrase: "a".to_string(), replacement: "b".to_string() }];
    assert!(render_vocabulary(&vocabulary).contains("a"));
    let snippets =
        vec![SnippetEntry { trigger: "sig".to_string(), body: "x\ny".to_string() }];
    assert_eq!(render_snippets(&snippets).lines().count(), 1);
    assert!(stop_warning_banner(&Vec::new()).is_empty());
    assert!(stop_warning_banner(&vec!["quiet".to_string()]).contains("quiet"));
}

#[test]
fn the_language_model_is_named_in_the_privacy_report() {
    assert!(llm_privacy_status(&LocalLlmConfig::default()).contains("disabled"));
    let processed = TextProcessingResult {
        mode: "raw".to_string(),
        final_text: "b".to_string(),
        processing_steps: vec![ProcessingStep { name: "raw".to_string() }],
        warnings: Vec::new(),
        llm: None,
    };
    let output = processed_text_output("a".to_string(), processed);
    assert_eq!(output.raw_text, "a");
    assert_eq!(output.final_text, "b");
    assert_eq!(output.processing_steps, vec!["raw"]);
}

#[test]
fn silent_memos_carry_a_warning() {
    let mut transcript = sample_transcript();
    transcript.warnings.push("first".to_string());
    warn_of_silence(&mut transcript, &None);
    assert_eq!(transcript.warnings, vec!["first"]);
    let level = AudioLevel {
        mean_dbfs: "-70.0".to_string(),
        peak_dbfs: "-60.0".to_string(),
        near_silent: true,
    };
    warn_of_silence(&mut transcript, &Some(level));
    assert_eq!(transcript.warnings.len(), 2);
    assert!(transcript.warnings[1].contains("-70.0 dBFS"));
    assert!(copy_notice(CopyResult { restored_previous: true }).contains("restored"));
    assert!(!copy_notice(CopyResult { restored_previous: false }).contains("restored"));
}
