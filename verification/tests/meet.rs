use comlink::asr::{Segment, SourceMetadata, Transcript};
use comlink::config::{ConfigPaths, RetentionConfig};
use comlink::error::ComlinkError;
use comlink::meet::{
    new_recording_session, MeetSourceMode, MeetingRetentionPolicy, MeetingSessionState,
    MeetingSourceLabel, MeetingSourceMetadata, MeetingStatus, NewMeetingSession,
};
use comlink::meet_export::{
    build_export, build_segments_from_chunk_transcripts, format_offset, raw_text_from_segments,
    render_markdown, ChunkTranscript, MeetingAudioLevel, MeetingExport, MeetingSegment,
    MeetingSegmenting,
};
use comlink::meet_store::{
    chunk_paths_in_dir, path_may_exist, DeletePlan, EntryKind, FileMeetingStore, ListedEntry,
    Listing, LockAttempt, LockStep, LockWait, MeetingChunk, MeetingExportKind, PathProbe,
    ProbedChunk, ScannedSession,
};
use comlink::output::{ProcessingStep, TextProcessingResult};
use comlink::record::ProcessIdentity;
use comlink::repetition::{
    collapse_repetition_loops, has_dominant_unigram_loop, has_phrase_repetition_loop,
    has_repetition_loop, non_speech_marker_count,
};

fn transcript(text: &str, duration_ms: u64, segments: Vec<Segment>) -> Transcript {
    Transcript {
        text: text.to_string(),
        engine: "whisper.cpp".to_string(),
        model: "model.bin".to_string(),
        duration_ms,
        segments,
        source: SourceMetadata {
            path: "chunk.wav".to_string(),
            normalized_sample_rate_hz: 16_000,
            normalized_channels: 1,
        },
    }
}

fn chunk_transcript(index: usize, start_ms: u64, transcript: Transcript) -> ChunkTranscript {
    ChunkTranscript {
        chunk_index: index,
        chunk_path: format!("chunk-{index:05}.wav"),
        source_label: MeetingSourceLabel::UserMic,
        source_device: ":0".to_string(),
        chunk_start_ms: start_ms,
        chunk_duration_ms: 30_000,
        transcript,
    }
}

#[test]
fn chunk_transcripts_stitch_into_monotonic_meeting_segments() {
    let chunks = vec![
        chunk_transcript(0, 0, transcript("alpha", 30_000, Vec::new())),
        chunk_transcript(1, 30_000, transcript("bravo", 30_000, Vec::new())),
    ];

    let result = build_segments_from_chunk_transcripts(&chunks);

    assert_eq!(result.segments.len(), 2);
    assert_eq!(result.segments[0].start_ms, 0);
    assert_eq!(result.segments[0].end_ms, 30_000);
    assert_eq!(result.segments[1].start_ms, 30_000);
    assert_eq!(result.segments[1].end_ms, 60_000);
    assert_eq!(raw_text_from_segments(&result.segments), "alpha\nbravo");
    assert!(!result.segmenting.vad_available);
}

#[test]
fn asr_sub_segments_are_offset_into_meeting_time() {
    let chunks = vec![chunk_transcript(
        2,
        60_000,
        transcript(
            "alpha bravo",
            30_000,
            vec![
                Segment { start_ms: 1_000, end_ms: 6_000, text: "alpha".to_string() },
                Segment { start_ms: 8_000, end_ms: 12_000, text: "bravo".to_string() },
            ],
        ),
    )];

    let result = build_segments_from_chunk_transcripts(&chunks);

    assert_eq!(result.segments[0].start_ms, 61_000);
    assert_eq!(result.segments[0].end_ms, 66_000);
    assert_eq!(result.segments[1].start_ms, 68_000);
    assert_eq!(result.segments[1].end_ms, 72_000);
    assert_eq!(result.segmenting.strategy, "asr-segments-offset-by-chunk");
    assert!(result.segmenting.vad_available);
}

fn retention(metadata: bool, transcripts: bool, audio: bool) -> MeetingRetentionPolicy {
    MeetingRetentionPolicy::from_config(&RetentionConfig { metadata, transcripts, audio })
}

fn session_with(
    id: &str,
    model: &str,
    dir: &str,
    retention: MeetingRetentionPolicy,
) -> MeetingSessionState {
    new_recording_session(
        NewMeetingSession {
            mode: "raw".to_string(),
            session_id: id.to_string(),
            no_llm: true,
            device: ":0".to_string(),
            source: MeetingSourceMetadata::default(),
            chunk_duration_ms: 30_000,
            model: model.to_string(),
            model_path: model.to_string(),
            retention,
            session_dir: dir.to_string(),
            chunks_dir: format!("{dir}/chunks"),
            recorder_stderr_path: format!("{dir}/capture.stderr"),
            segments_jsonl_path: format!("{dir}/segments.jsonl"),
            json_export_path: format!("{dir}/transcript.json"),
            markdown_export_path: format!("{dir}/transcript.md"),
        },
        50,
    )
}

fn processed(text: &str) -> TextProcessingResult {
    TextProcessingResult {
        mode: "raw".to_string(),
        final_text: text.to_string(),
        processing_steps: vec![ProcessingStep { name: "raw".to_string() }],
        warnings: Vec::new(),
        llm: None,
    }
}

fn segment(text: &str, end_ms: u64) -> MeetingSegment {
    MeetingSegment {
        segment_index: 0,
        chunk_index: 0,
        start_ms: 0,
        end_ms,
        source_label: MeetingSourceLabel::UserMic,
        source_device: ":0".to_string(),
        text: text.to_string(),
        chunk_path: "/tmp/session/chunks/chunk-00000.wav".to_string(),
    }
}

fn segmenting() -> MeetingSegmenting {
    MeetingSegmenting {
        strategy: "chunk-boundaries".to_string(),
        vad_available: false,
        detail: "test".to_string(),
    }
}

fn level(mean_dbfs: &str, peak_dbfs: &str, near_silent: bool) -> MeetingAudioLevel {
    MeetingAudioLevel {
        mean_dbfs: mean_dbfs.to_string(),
        peak_dbfs: peak_dbfs.to_string(),
        near_silent,
    }
}

#[test]
fn export_applies_retention_without_dropping_policy_metadata() {
    let mut session = session_with(
        "meeting-1",
        "/models/ggml.bin",
        "/tmp/session",
        retention(false, false, false),
    );
    session.mark_stopped(200, 100, 1);

    let export = build_export(
        &session,
        &[segment("secret", 100)],
        "secret",
        &processed("secret"),
        segmenting(),
        None,
    );

    assert_eq!(export.session.source, "<redacted>");
    assert_eq!(export.session.model, "<redacted>");
    assert!(!export.retention.transcripts);
    assert_eq!(export.final_text, None);
    assert_eq!(export.segments[0].text, None);
    assert_eq!(export.segments[0].chunk_path, None);
    assert!(!render_markdown(&export).contains("secret"));
}

#[test]
fn export_warns_about_noisy_tiny_model_meeting_transcripts() {
    let mut session = session_with(
        "meeting-1",
        "/models/ggml-tiny.en.bin",
        "/tmp/session",
        retention(true, true, false),
    );
    session.mark_stopped(200, 180_000, 1);
    let repeated = "[BLANK_AUDIO] Please go back to the phone. \
        Please go back to the phone. Please go back to the phone. \
        Please go back to the phone. Please go back to the phone. \
        Please go back to the phone.";

    let export = build_export(
        &session,
        &[segment(repeated, 180_000)],
        repeated,
        &processed(repeated),
        segmenting(),
        None,
    );

    assert_eq!(export.warnings.len(), 4);
    assert!(export.warnings.iter().any(|warning| warning.contains("tiny Whisper model")));
    assert!(export.warnings.iter().any(|warning| warning.contains("[BLANK_AUDIO]")));
    assert!(export.warnings.iter().any(|warning| warning.contains("repeated phrase loop")));
    assert!(export.warnings.iter().any(|warning| warning.contains("raw_text preserves")));
    assert!(export
        .processing_steps
        .contains(&"meeting-repetition-loop-collapse".to_string()));
    assert_eq!(export.raw_text.as_deref(), Some(repeated));
    assert!(export
        .final_text
        .as_deref()
        .unwrap()
        .contains("[repeated phrase loop collapsed]"));
    assert!(export.segments[0]
        .text
        .as_deref()
        .unwrap()
        .contains("[repeated phrase loop collapsed]"));
}

#[test]
fn export_warns_and_records_structured_field_for_near_silent_capture() {
    let mut session = session_with(
        "meeting-silent",
        "/models/ggml-base.en.bin",
        "/tmp/session",
        retention(true, true, false),
    );
    session.mark_stopped(200, 60_000, 1);
    let segments = vec![segment("you you you", 60_000)];

    let audio_level = Some(level("-72.0", "-60.0", true));
    let export = build_export(
        &session,
        &segments,
        "you you you",
        &processed("you you you"),
        segmenting(),
        audio_level.clone(),
    );

    assert_eq!(export.audio_level, audio_level);
    assert!(export
        .warnings
        .iter()
        .any(|warning| warning.contains("near-silent") && warning.contains("-72.0 dBFS")));

    // A loud session carries the structured field but no near-silent warning.
    let loud = build_export(
        &session,
        &segments,
        "you you you",
        &processed("you you you"),
        segmenting(),
        Some(level("-28.0", "-6.0", false)),
    );
    assert!(!loud.warnings.iter().any(|warning| warning.contains("near-silent")));
}

#[test]
fn repetition_loop_collapse_handles_sentence_and_clause_runs() {
    let text = "Start. I need your help. I need your help. I need your help. \
        I need your help. I need your help. I need your help. Then it is like, \
        it is like, it is like, it is like, it is like, it is like, finished.";

    let (collapsed, changed) = collapse_repetition_loops(text);

    assert!(changed);
    assert!(collapsed.contains("Start."));
    assert!(collapsed.contains("finished."));
    assert_eq!(collapsed.matches("I need your help.").count(), 2);
    assert!(collapsed.contains("Then it is like, it is like, it is like,"));
    assert_eq!(collapsed.matches("[repeated phrase loop collapsed]").count(), 2);
}

#[test]
fn repetition_loop_collapse_leaves_short_emphasis_alone() {
    let text = "No, no, no, no, no. Yeah. Yeah. Thanks.";

    let (collapsed, changed) = collapse_repetition_loops(text);

    assert!(!changed);
    assert_eq!(collapsed, text);
}

#[test]
fn repetition_loop_detects_repeated_single_token_whisper_hallucination() {
    // One short token repeated: the phrase-run check misses it (single tokens are
    // shorter than 12 chars), so the unigram path must catch it.
    let text = "you you you you you you you you you you you you";
    assert!(has_repetition_loop(text));
    assert!(!has_phrase_repetition_loop(text));
    assert!(has_dominant_unigram_loop(text));
}

#[test]
fn repetition_loop_detects_repeated_token_across_sentences() {
    let text = "Thank you. ".repeat(12);
    assert!(has_repetition_loop(&text));
}

#[test]
fn repetition_loop_ignores_short_emphatic_repeats() {
    assert!(!has_repetition_loop("No, no, no, no, no. Yeah. Thanks."));
    assert!(!has_repetition_loop(
        "We shipped the feature and the team is happy with the result."
    ));
    assert!(!has_repetition_loop("yes yes yes"));
}

#[test]
fn repetition_loop_dominance_needs_a_long_transcript() {
    // "you" is 14 of 21 tokens, with a longest run of 2.
    let dominated = "you you and ".repeat(7);
    assert!(has_dominant_unigram_loop(&dominated));

    // The same ratio in a short transcript stays quiet.
    assert!(!has_dominant_unigram_loop("you and you but you"));
}

#[test]
fn markers_of_silence_are_counted() {
    assert_eq!(non_speech_marker_count("[BLANK_AUDIO] hi [blank_audio]"), 2);
    assert_eq!(non_speech_marker_count("hello"), 0);
}

#[test]
fn export_warns_on_degenerate_unigram_transcript_without_audio_level() {
    let session = session_with(
        "meeting-unigram",
        "/models/ggml-base.en.bin",
        "/tmp/session",
        retention(true, true, false),
    );
    let text = "you you you you you you you you you you you you";

    let export = build_export(
        &session,
        &[segment(text, 60_000)],
        text,
        &processed(text),
        segmenting(),
        None,
    );

    assert!(export.warnings.iter().any(|warning| warning.contains("repeated phrase loop")));
}

fn store_session(id: &str, retention_audio: bool) -> (FileMeetingStore, MeetingSessionState) {
    let paths = ConfigPaths {
        home_dir: "/r/home".to_string(),
        config_file: "/r/home/config.json".to_string(),
        data_dir: "/r/data".to_string(),
        database_file: "/r/data/history.sqlite3".to_string(),
        audio_dir: "/r/data/audio".to_string(),
    };
    let store = FileMeetingStore::new(&paths);
    let dir = store.session_dir(id);
    let session = session_with(id, "model.bin", &dir, retention(true, true, retention_audio));
    (store, session)
}

fn stopped_export(session: &MeetingSessionState) -> MeetingExport {
    let mut stopped = session.clone();
    stopped.mark_stopped(500, 30_000, 1);
    build_export(
        &stopped,
        &[segment("hello", 30_000)],
        "hello",
        &TextProcessingResult {
            mode: "raw".to_string(),
            final_text: "hello".to_string(),
            processing_steps: Vec::new(),
            warnings: Vec::new(),
            llm: None,
        },
        segmenting(),
        None,
    )
}

#[test]
fn meeting_status_values_round_trip_through_serde() {
    for status in [
        MeetingStatus::Recording,
        MeetingStatus::Stopped,
        MeetingStatus::Transcribing,
        MeetingStatus::Failed,
    ] {
        let json = serde_json::to_string(status.as_str()).unwrap();
        assert_eq!(json, format!("\"{}\"", status.as_str()));
        let name: String = serde_json::from_str(&json).unwrap();
        assert_eq!(MeetingStatus::parse(&name), Some(status));
    }
    assert_eq!(MeetingStatus::parse("Recording"), None);
}

#[test]
fn lifecycle_transitions_clear_stale_fields() {
    let (_, mut session) = store_session("transitions", false);
    session.mark_failed("boom".to_string());
    assert_eq!(session.status, MeetingStatus::Failed);
    assert_eq!(session.error.as_deref(), Some("boom"));

    session.mark_transcribing(100, 60_000, 70);
    assert_eq!(session.status, MeetingStatus::Transcribing);
    assert!(session.error.is_none());
    assert!(session.transcribing_started_at_ms.is_some());

    session.finalizer = Some(ProcessIdentity { pid: 1, process_started_at: None });
    session.mark_stopped(100, 60_000, 2);
    assert!(session.finalizer.is_none());
    assert!(session.error.is_none());
}

#[test]
fn lifecycle_lock_is_exclusive_and_released_on_drop() {
    let (store, session) = store_session("locked", false);
    let id = session.session_id.as_str();

    assert!(!store.is_session_locked(LockAttempt::Taken).unwrap());
    assert!(matches!(
        store.lock_session(id, LockWait::Try, LockAttempt::Taken, 0),
        LockStep::Held
    ));
    assert!(store.is_session_locked(LockAttempt::Busy).unwrap());

    assert!(matches!(
        store.lock_session(id, LockWait::For(100), LockAttempt::Busy, 99),
        LockStep::Sleep
    ));
    assert!(matches!(
        store.lock_session(id, LockWait::For(100), LockAttempt::Busy, 100),
        LockStep::Fail(ComlinkError::MeetingLifecycleBusy(_))
    ));
    assert!(matches!(
        store.lock_session(id, LockWait::Try, LockAttempt::Busy, 0),
        LockStep::Fail(ComlinkError::MeetingLifecycleBusy(_))
    ));
    assert!(matches!(
        store.lock_session("missing", LockWait::Try, LockAttempt::Absent, 0),
        LockStep::Fail(ComlinkError::MeetingSessionNotFound(_))
    ));
}

#[test]
fn validate_export_for_recovery_accepts_valid_and_rejects_mismatches() {
    let (store, session) = store_session("recover", false);

    let missing = store
        .validate_export_for_recovery(&session, Err("No such file or directory".to_string()))
        .unwrap_err();
    assert!(matches!(missing, ComlinkError::MeetingExportUnavailable(_)));

    let export = stopped_export(&session);
    let recovered = store.validate_export_for_recovery(&session, Ok(export.clone())).unwrap();
    assert_eq!(recovered.session.segment_count, 1);

    let variant = |mutate: &dyn Fn(&mut MeetingExport)| {
        let mut value = export.clone();
        mutate(&mut value);
        store.validate_export_for_recovery(&session, Ok(value))
    };
    assert!(variant(&|value| value.schema_version = "comlink.meeting.v0".into()).is_err());
    assert!(variant(&|value| value.session.session_id = "other".into()).is_err());
    assert!(variant(&|value| value.session.status = "recording".into()).is_err());
    assert!(variant(&|value| value.artifacts.markdown_export = "/elsewhere.md".into()).is_err());
    assert!(variant(&|value| value.session.segment_count = 5).is_err());
    assert!(store
        .validate_export_for_recovery(&session, Err("EOF while parsing".to_string()))
        .is_err());
}

#[test]
fn list_sessions_skips_unreadable_dirs_and_legacy_latest_stopped_still_works() {
    let (store, mut first) = store_session("a-first", false);
    first.mark_stopped(10, 10, 0);
    first.started_at_ms = 1;
    let (_, mut second) = store_session("b-second", false);
    second.status = MeetingStatus::Transcribing;
    second.started_at_ms = 2;
    let scanned = |id: &str, session: Result<MeetingSessionState, ComlinkError>| ScannedSession {
        path: store.session_dir(id),
        session,
    };

    let (sessions, skipped) = store.list_sessions(vec![
        scanned("a-first", Ok(first)),
        scanned("b-second", Ok(second)),
        scanned(
            "empty-dir",
            store.read_session("empty-dir", None),
        ),
    ]);
    assert_eq!(
        sessions
            .iter()
            .map(|session| session.session_id.as_str())
            .collect::<Vec<_>>(),
        vec!["b-second", "a-first"]
    );
    assert_eq!(skipped.len(), 1);
    assert_eq!(store.latest_stopped_session_id(&sessions).as_deref(), Some("a-first"));
    assert_eq!(
        store
            .latest_session_with_status(&sessions, MeetingStatus::Transcribing)
            .as_deref(),
        Some("b-second")
    );
}

#[test]
fn of_sessions_that_start_together_the_larger_id_is_found() {
    let (store, one) = store_session("a-one", false);
    let (_, mut other) = store_session("b-other", false);
    other.started_at_ms = one.started_at_ms;
    let status = one.status;
    let scanned = |session: MeetingSessionState| ScannedSession {
        path: store.session_dir(&session.session_id),
        session: Ok(session),
    };
    let (sessions, _) = store.list_sessions(vec![scanned(one), scanned(other)]);
    assert_eq!(
        store.latest_session_with_status(&sessions, status).as_deref(),
        Some("b-other")
    );
}

#[test]
fn new_sessions_do_not_stop_by_themselves() {
    let (_, session) = store_session("quiet", false);
    assert!(!session.inactivity_auto_stop.enabled);
    assert_eq!(
        session.inactivity_auto_stop.reason,
        "not enabled in Phase 7; the current capture adapter has no reliable realtime silence signal"
    );
}

#[test]
fn chunks_of_a_stream_stand_end_to_end() {
    let (store, session) = store_session("chunks", false);
    let dir = session.chunks_dir.clone();
    let file = |name: &str| ListedEntry::Found(format!("{dir}/{name}"), Ok(EntryKind::File));
    let paths = chunk_paths_in_dir(
        &dir,
        Listing::Entries(vec![
            file("chunk-00001.wav"),
            file("notes.txt"),
            file("chunk-00000.wav"),
        ]),
    )
    .unwrap();
    assert_eq!(paths, vec![format!("{dir}/chunk-00000.wav"), format!("{dir}/chunk-00001.wav")]);
    let probed = paths
        .into_iter()
        .enumerate()
        .map(|(index, path)| ProbedChunk {
            path,
            duration_ms: (index == 0).then_some(1_000),
        })
        .collect();
    let chunks = store.session_chunks(&session, vec![probed]);
    assert_eq!(chunks[0].end_ms(), 1_000);
    assert_eq!(chunks[1].start_ms, 1_000);
    assert_eq!(chunks[1].duration_ms, 30_000);
    assert!(chunk_paths_in_dir(&dir, Listing::Absent).unwrap().is_empty());
    assert!(chunk_paths_in_dir(&dir, Listing::Failed("denied".to_string())).is_err());
}

#[test]
fn chunks_are_the_wav_files_of_the_streams() {
    let (store, mut session) = store_session("found", true);
    let mut second = session.source.streams[0].clone();
    second.label = MeetingSourceLabel::SystemAudio;
    second.device = ":sys".to_string();
    second.chunks_dir = Some("/c/system".to_string());
    session.source.streams.truncate(1);
    session.source.streams[0].label = MeetingSourceLabel::UserMic;
    session.source.streams[0].chunks_dir = Some("/c/mic".to_string());
    session.source.streams.push(second);
    let file = |path: &str| ListedEntry::Found(path.to_string(), Ok(EntryKind::File));
    let mic = || {
        Listing::Entries(vec![
            file("/c/mic/1.wav"),
            file("/c/mic/notes.txt"),
            ListedEntry::Found("/c/mic/old.wav".to_string(), Ok(EntryKind::Directory)),
            file("/c/mic/0.wav"),
        ])
    };
    let system = || Listing::Entries(vec![file("/c/system/0.wav")]);
    let probe = |path: &String| match path.as_str() {
        "/c/mic/0.wav" => Some(1_000),
        "/c/mic/1.wav" => Some(0),
        _ => None,
    };

    let chunks = store.discover_chunks(&session, vec![mic(), system()], probe).unwrap();
    let found: Vec<(usize, &str, MeetingSourceLabel, u64, u64)> = chunks
        .iter()
        .map(|chunk| {
            let MeetingChunk { index, source_label, start_ms, duration_ms, .. } = chunk;
            (*index, chunk.path.as_str(), *source_label, *start_ms, *duration_ms)
        })
        .collect();
    let first = ("/c/mic/0.wav", MeetingSourceLabel::UserMic, 0, 1_000);
    let other = ("/c/system/0.wav", MeetingSourceLabel::SystemAudio, 0, 30_000);
    // Those that start together stand by the names of their sources.
    let (low, high) =
        if first.1.as_str() < other.1.as_str() { (first, other) } else { (other, first) };
    assert_eq!(
        found,
        vec![
            (0, low.0, low.1, low.2, low.3),
            (1, high.0, high.1, high.2, high.3),
            (2, "/c/mic/1.wav", MeetingSourceLabel::UserMic, 1_000, 30_000),
        ]
    );

    let stream = &session.source.streams[0];
    let alone = store.discover_chunks_for_stream(&session, stream, mic(), probe).unwrap();
    assert_eq!(alone.len(), 2);
    assert_eq!(alone[1].path, "/c/mic/1.wav");
    assert_eq!(alone[1].start_ms, 1_000);

    let closed = |text: &str| Listing::Failed(text.to_string());
    let error =
        store.discover_source_chunks(&session, vec![mic(), closed("denied")], probe).unwrap_err();
    assert!(matches!(error, ComlinkError::Io(text) if text == "/c/system: denied"));
    let both = vec![closed("one"), closed("two")];
    let error = store.discover_source_chunks(&session, both, probe).unwrap_err();
    assert!(matches!(error, ComlinkError::Io(text) if text == "/c/mic: one"));
    let none = vec![Listing::Absent, Listing::Absent];
    assert!(store.discover_chunks(&session, none, probe).unwrap().is_empty());
    assert!(store
        .discover_chunks_for_stream(&session, stream, closed("denied"), probe)
        .is_err());
}

#[test]
fn just_an_absent_directory_is_nothing_to_delete() {
    let (store, session) = store_session("dropped", false);
    assert!(matches!(
        store.delete_unretained_chunks(&session, PathProbe::Present),
        DeletePlan::Remove(dir) if dir == session.chunks_dir
    ));
    assert!(matches!(
        store.delete_unretained_chunks(&session, PathProbe::Absent),
        DeletePlan::Nothing
    ));
    assert!(matches!(
        store.delete_unretained_chunks(&session, PathProbe::Unknown("denied".to_string())),
        DeletePlan::Fail(ComlinkError::Io(text)) if text.contains("denied")
    ));
    assert!(path_may_exist(&PathProbe::Unknown("denied".to_string())));
    assert!(!path_may_exist(&PathProbe::Absent));
}

#[test]
fn store_files_have_their_places() {
    let (store, session) = store_session("m1", false);
    assert_eq!(store.root(), "/r/data/meetings");
    assert_eq!(store.session_file("m1"), "/r/data/meetings/m1/session.json");
    assert_eq!(store.active_file(), "/r/data/meetings/active-session");
    assert_eq!(store.lock_file("m1"), "/r/data/meetings/m1/lifecycle.lock");
    assert_eq!(
        store.active_session_id(Some(Ok(" m1\n".to_string()))).unwrap().as_deref(),
        Some("m1")
    );
    assert_eq!(store.active_session_id(None).unwrap(), None);
    assert!(store.clear_active_if_matches(&Some("m1".to_string()), "m1"));
    assert!(!store.clear_active_if_matches(&Some("m2".to_string()), "m1"));
    assert!(matches!(
        store.export_path("m1", &session, MeetingExportKind::Json),
        Err(ComlinkError::MeetingNotStopped(_))
    ));
}

#[test]
fn source_modes_are_read_back_and_offsets_are_written() {
    for mode in
        [MeetSourceMode::MicOnly, MeetSourceMode::SystemOnly, MeetSourceMode::MicPlusSystem]
    {
        assert_eq!(MeetSourceMode::parse(mode.as_str()), Some(mode));
    }
    assert_eq!(format_offset(3_723_045), "01:02:03.045");
}
