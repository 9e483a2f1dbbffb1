use comlink::asr::Transcript;
use comlink::config::{Config, ConfigPaths, ResolvedConfig};
use comlink::deps::RuntimeDeps;
use comlink::error::ComlinkError;
use comlink::meet::{
    MeetSourceMode, MeetingRetentionPolicy, MeetingSessionState, MeetingSourceLabel,
    MeetingSourceMetadata, MeetingStatus,
};
use comlink::meet_audit::{
    collect_session_dirs, list_store, meeting_audio_audit, wav_paths, DirTree, SessionDirFacts,
    TreeEntry,
};
use comlink::meet_flow::{
    commit_recovered, commit_transcribed, CommitStep, StartEvent, StartFlow, StartStage, StopAction,
    StopEvent, StopFlow, StopStage,
};
use comlink::meet_recorders::{
    build_meeting_source_metadata, capture_request, requested_system_device,
    resolve_system_audio_device, same_audio_device, session_recorder_health,
    session_recorder_identities, session_recorder_is_verified_running, RecorderFacts, RecorderRef,
};
use comlink::meet_service::{
    active_step, chunk_source, clamp_timeout, collect_chunk_transcripts, elapsed_since,
    export_from_pipeline, finalizer_arguments, meeting_duration_ms, model_for_start,
    pipeline_output, plan_finalize, prepare_start, prepare_stop, recognise_session,
    recognition_failed, session_for_start, start_model, start_status, stitch_chunks, stop_target,
    transcribe_session, ActiveStep, Effect, FinalizeFacts, FinalizePlan, Job, JobPlan, JobStep,
    PipelineOutput, StartLookups, StartOptions, StartRequest,
};
use comlink::meet_status::{
    classify_stale, latest_completed_chunk, list, mcp_privacy, no_session_report,
    read_session_for_status, resolve_default_status_session, resolve_export_session_id,
    session_status_report, transcript, transcript_target, SkippedDir, StatusFacts,
};
use comlink::meet_store::{
    EntryKind, FileMeetingStore, ListedEntry, Listing, MeetingChunk, MeetingExportKind,
    SkippedSession,
};
use comlink::output::TextProcessingResult;
use comlink::record::{
    fallback_device, DeviceSource, ProcessFacts, ProcessIdentity, ResolvedRecordDevice,
    SegmentedCapture, SegmentedCaptureIdentity,
};
use comlink::system_audio::SystemAudioCapturePlan;

#[test]
fn stale_classification_table() {
    let cases = [
        // status, recorder alive, locked, finalizer alive, expected stale
        (MeetingStatus::Recording, true, false, false, false),
        (MeetingStatus::Recording, false, false, false, true),
        (MeetingStatus::Recording, false, true, false, false),
        (MeetingStatus::Transcribing, false, true, false, false),
        (MeetingStatus::Transcribing, false, false, true, false),
        (MeetingStatus::Transcribing, false, false, false, true),
        (MeetingStatus::Stopped, false, false, false, false),
        (MeetingStatus::Failed, false, false, false, false),
    ];
    for (status, recorder, locked, finalizer, expected) in cases {
        let (stale, reason) = classify_stale(status, recorder, locked, finalizer, "s1");
        assert_eq!(stale, expected, "{status:?} {recorder} {locked} {finalizer}");
        assert_eq!(reason.is_some(), expected);
    }
    let (_, reason) = classify_stale(MeetingStatus::Transcribing, false, false, false, "s1");
    assert!(reason.unwrap().contains("comlink meet finalize s1"));
}

#[test]
fn latest_completed_chunk_skips_live_newest_and_is_deterministic() {
    let text = |s: &str| s.to_string();
    let mic = (MeetingSourceLabel::UserMic, vec![text("mic/0.wav"), text("mic/1.wav")]);
    let system = (MeetingSourceLabel::SystemAudio, vec![text("sys/0.wav"), text("sys/1.wav")]);
    let files = vec![mic.clone(), system.clone()];

    // Nothing live: highest index wins, ties broken by the larger label string
    // (`user_mic` > `system_audio`).
    assert_eq!(latest_completed_chunk(&files, &[]), Some(text("mic/1.wav")));
    // Both live: newest per stream excluded.
    assert_eq!(
        latest_completed_chunk(
            &files,
            &[MeetingSourceLabel::UserMic, MeetingSourceLabel::SystemAudio]
        ),
        Some(text("mic/0.wav"))
    );
    // Only mic live: system's newest is complete and has the higher index.
    assert_eq!(
        latest_completed_chunk(&files, &[MeetingSourceLabel::UserMic]),
        Some(text("sys/1.wav"))
    );
    // A single in-progress chunk is never read.
    let single = vec![(MeetingSourceLabel::UserMic, vec![text("0.wav")])];
    assert_eq!(latest_completed_chunk(&single, &[MeetingSourceLabel::UserMic]), None);
    assert_eq!(latest_completed_chunk(&[], &[]), None);
}

#[test]
fn session_dir_scan_names_the_entry_whose_type_cannot_be_read() {
    let denied = || "permission denied".to_string();
    let entries = vec![
        ListedEntry::Found("/store/a".to_string(), Ok(EntryKind::Directory)),
        ListedEntry::Found("/store/file".to_string(), Ok(EntryKind::File)),
        ListedEntry::Found("/store/b".to_string(), Err(denied())),
        ListedEntry::Unreadable(denied()),
    ];
    let mut errors = Vec::new();
    let dirs = collect_session_dirs("/store", entries, &mut errors);
    assert_eq!(dirs, vec!["/store/a".to_string()]);
    assert_eq!(errors.len(), 2);
    assert_eq!(errors[0].path, "/store/b");
    assert_eq!(errors[1].path, "/store");
}

fn paths() -> ConfigPaths {
    ConfigPaths {
        home_dir: "/h".to_string(),
        config_file: "/h/config.json".to_string(),
        data_dir: "/h/data".to_string(),
        database_file: "/h/data/history.sqlite3".to_string(),
        audio_dir: "/h/data/audio".to_string(),
    }
}

fn store() -> FileMeetingStore {
    FileMeetingStore::new(&paths())
}

fn session_of(id: &str, mode: MeetSourceMode, keep_audio: bool) -> MeetingSessionState {
    let source = build_meeting_source_metadata(mode, ":0", Ok("BlackHole 2ch".to_string())).unwrap();
    session_for_start(
        StartRequest {
            mode: "raw".to_string(),
            device: ":0".to_string(),
            source: mode,
            system_device: None,
            chunk_seconds: 300,
            no_llm: true,
        },
        source,
        "/m/ggml-base.bin",
        MeetingRetentionPolicy { metadata: true, transcripts: true, audio: keep_audio },
        store().paths_for_new_session(id.to_string()),
        1_000,
    )
}

fn recording(id: &str) -> MeetingSessionState {
    session_of(id, MeetSourceMode::MicOnly, false)
}

fn chunk(index: usize, start_ms: u64) -> MeetingChunk {
    MeetingChunk {
        index,
        path: format!("/c/chunk-{index:05}.wav"),
        source_label: MeetingSourceLabel::UserMic,
        source_device: ":0".to_string(),
        start_ms,
        duration_ms: 300_000,
    }
}

fn pipeline(session: &MeetingSessionState) -> PipelineOutput {
    let chunks = vec![chunk(0, 0), chunk(1, 300_000)];
    let outcomes = chunks
        .iter()
        .map(|chunk| {
            Ok(Transcript {
                text: format!("words {}", chunk.index),
                engine: "whisper.cpp".to_string(),
                model: "m".to_string(),
                duration_ms: 300_000,
                segments: Vec::new(),
                source: chunk_source(session, chunk),
            })
        })
        .collect();
    let transcripts = collect_chunk_transcripts(&chunks, outcomes).unwrap();
    let stitched = stitch_chunks(&transcripts);
    assert_eq!(stitched.raw_text, "words 0\nwords 1");
    let processed = TextProcessingResult {
        mode: "raw".to_string(),
        final_text: stitched.raw_text.clone(),
        processing_steps: Vec::new(),
        warnings: Vec::new(),
        llm: None,
    };
    pipeline_output(chunks, stitched, processed, None)
}

#[test]
fn stopping_in_the_foreground_saves_before_it_transcribes() {
    let mut flow = StopFlow::new(recording("m1"), false, 5_000);
    let mut seen = Vec::new();
    loop {
        let action = flow.action();
        seen.push(action);
        let event = match action {
            StopAction::ListChunks => StopEvent::Listed(vec![chunk(0, 0)]),
            StopAction::Transcribe => break,
            StopAction::End => panic!("ended early"),
            _ => StopEvent::Done,
        };
        flow = flow.next(event, 6_000);
    }
    assert_eq!(
        seen,
        vec![
            StopAction::StopRecorders,
            StopAction::ListChunks,
            StopAction::SaveSession,
            StopAction::ClearActive,
            StopAction::Transcribe,
        ]
    );
    assert_eq!(flow.session.status, MeetingStatus::Stopped);
    assert_eq!(flow.session.stopped_at_ms, Some(5_000));
}

#[test]
fn stopping_detached_hands_over_to_a_finalizer() {
    let mut flow = StopFlow::new(recording("m1"), true, 5_000);
    while flow.action() != StopAction::End {
        let event = match flow.action() {
            StopAction::ListChunks => StopEvent::Listed(vec![chunk(0, 0)]),
            StopAction::LaunchFinalizer => {
                StopEvent::Launched(ProcessIdentity { pid: 9, process_started_at: None })
            }
            _ => StopEvent::Done,
        };
        flow = flow.next(event, 6_000);
    }
    assert_eq!(flow.stage, StopStage::Finished);
    assert_eq!(flow.session.status, MeetingStatus::Transcribing);
    let status = flow.status.unwrap();
    assert_eq!(status.finalizer_pid, 9);
    assert_eq!(status.chunk_count, 1);
    assert_eq!(status.preliminary_duration_ms, 300_000);
}

#[test]
fn a_finalizer_that_cannot_start_leaves_a_failed_session() {
    let mut flow = StopFlow::new(recording("m1"), true, 5_000);
    while flow.action() != StopAction::End {
        let event = match flow.action() {
            StopAction::ListChunks => StopEvent::Listed(vec![chunk(0, 0)]),
            StopAction::LaunchFinalizer => StopEvent::Failed(
                ComlinkError::MeetingFinalizeLaunchFailed("no binary".to_string()),
            ),
            _ => StopEvent::Done,
        };
        flow = flow.next(event, 6_000);
    }
    assert_eq!(flow.stage, StopStage::Failed);
    assert_eq!(flow.session.status, MeetingStatus::Failed);
    assert!(matches!(flow.error, Some(ComlinkError::MeetingFinalizeLaunchFailed(_))));
}

fn capture(pid: u32) -> SegmentedCapture {
    SegmentedCapture {
        pid,
        identity: SegmentedCaptureIdentity {
            pid,
            output_pattern: "/c/chunk-%05d.wav".to_string(),
            process_started_at: None,
        },
    }
}

#[test]
fn starting_records_every_stream() {
    let mut flow = StartFlow::new(session_of("m1", MeetSourceMode::MicPlusSystem, false));
    let mut pid = 40;
    while !matches!(flow.stage, StartStage::Finished | StartStage::Failed) {
        let event = match flow.stage {
            StartStage::Recording(_) => {
                pid += 1;
                StartEvent::Captured(capture(pid))
            }
            _ => StartEvent::Done,
        };
        flow = flow.next(event);
    }
    assert_eq!(flow.stage, StartStage::Finished);
    assert_eq!(flow.session.source.streams[1].recorder_pid, Some(42));
    let status = start_status(flow.session, 3_500);
    assert_eq!(status.recorder_pid, 41);
    assert_eq!(status.recorders.len(), 2);
    assert_eq!(status.elapsed_ms, 2_500);
}

#[test]
fn a_start_that_fails_stops_what_it_started() {
    let mut flow = StartFlow::new(session_of("m1", MeetSourceMode::MicPlusSystem, false));
    flow = flow.next(StartEvent::Done);
    flow = flow.next(StartEvent::Captured(capture(41)));
    flow = flow.next(StartEvent::Failed(ComlinkError::AudioCaptureFailed("busy".to_string())));
    assert_eq!(flow.stage, StartStage::Unwinding);
    assert_eq!(flow.started.len(), 1);
    flow = flow.next(StartEvent::Done);
    assert_eq!(flow.stage, StartStage::Clearing);
    flow = flow.next(StartEvent::Done);
    assert_eq!(flow.stage, StartStage::Failed);
    assert!(matches!(flow.error, Some(ComlinkError::AudioCaptureFailed(_))));
}

#[test]
fn audio_outlives_the_exports_it_is_made_into() {
    let mut job = Job::new(JobPlan::Finalize { keep_audio: false });
    let mut effects = Vec::new();
    while let Some(effect) = job.next() {
        effects.push(effect);
        job = match job.after(Ok(())) {
            JobStep::Continue(next) => next,
            other => panic!("unexpected {other:?}"),
        };
    }
    let place = |effect: Effect| effects.iter().position(|e| *e == effect).unwrap();
    assert!(place(Effect::WriteExports) < place(Effect::DeleteAudio));
    assert_eq!(place(Effect::SaveStopped), effects.len() - 1);
    let kept = JobPlan::Finalize { keep_audio: true }.effect_list();
    assert!(!kept.contains(&Effect::DeleteAudio));
}

#[test]
fn transcribed_sessions_are_committed_as_stopped() {
    let mut session = recording("m1");
    session.mark_transcribing(5_000, 600_000, 5_100);
    let made = pipeline(&session);
    let mut commit = commit_transcribed(session, &made, true, 9_000);
    while commit.job.next().is_some() {
        commit = match commit.after(Ok(())) {
            CommitStep::Continue(next) => next,
            other => panic!("unexpected {other:?}"),
        };
    }
    assert_eq!(commit.finished.status, MeetingStatus::Stopped);
    assert_eq!(commit.finished.duration_ms, Some(600_000));
    assert_eq!(commit.finished.segment_count, 2);
    assert_eq!(commit.chunks_processed, 2);
    assert_eq!(commit.export.raw_text.as_deref(), Some("words 0\nwords 1"));
}

#[test]
fn a_failed_write_fails_the_session() {
    let mut session = recording("m1");
    session.mark_transcribing(5_000, 600_000, 5_100);
    let made = pipeline(&session);
    let commit = commit_transcribed(session, &made, true, 9_000);
    match commit.after(Err(ComlinkError::Io("disk full".to_string()))) {
        CommitStep::Fail(session, error) => {
            assert_eq!(session.session_id, "m1");
            assert!(error.message().contains("disk full"));
        }
        other => panic!("unexpected {other:?}"),
    }
}

#[test]
fn recovery_ends_where_transcription_would() {
    let mut session = recording("m1");
    session.mark_transcribing(5_000, 600_000, 5_100);
    let made = pipeline(&session);
    let transcribed = commit_transcribed(session.clone(), &made, true, 9_000);
    let recovered = commit_recovered(session, transcribed.export.clone(), 9_000);
    assert_eq!(recovered.finished.duration_ms, transcribed.finished.duration_ms);
    assert_eq!(recovered.finished.segment_count, transcribed.finished.segment_count);
    assert_eq!(recovered.finished.status, MeetingStatus::Stopped);
}

fn facts(export: Result<comlink::meet_export::MeetingExport, ComlinkError>) -> FinalizeFacts {
    FinalizeFacts {
        export,
        export_may_exist: false,
        chunk_count: Ok(2),
        markdown_present: true,
        segments_present: true,
    }
}

#[test]
fn finalizing_depends_on_what_is_stored() {
    let missing = || Err(ComlinkError::MeetingExportUnavailable("m1".to_string()));
    assert!(matches!(
        plan_finalize("m1", &recording("m1"), facts(missing())),
        FinalizePlan::Refuse(ComlinkError::MeetingNotTranscribing(_))
    ));
    let mut session = recording("m1");
    session.mark_transcribing(5_000, 600_000, 5_100);
    assert!(matches!(
        plan_finalize("m1", &session, facts(missing())),
        FinalizePlan::Transcribe { .. }
    ));
    let made = pipeline(&session);
    let mut stopped = session.clone();
    stopped.mark_stopped(5_000, made.duration_ms, made.segments.len());
    let export = export_from_pipeline(&stopped, &made);
    assert!(matches!(
        plan_finalize("m1", &session, facts(Ok(export.clone()))),
        FinalizePlan::Recover { .. }
    ));
    assert!(matches!(
        plan_finalize("m1", &stopped, facts(Ok(export))),
        FinalizePlan::Report { ending: None, .. }
    ));
    let invalid = FinalizeFacts { export_may_exist: true, ..facts(missing()) };
    assert!(matches!(
        plan_finalize("m1", &session, invalid),
        FinalizePlan::Refuse(_) | FinalizePlan::Fail(_)
    ));
}

#[test]
fn a_second_start_is_refused_while_recording() {
    assert!(matches!(
        active_step("m1".to_string(), Ok(recording("m1")), true),
        ActiveStep::Refuse(ComlinkError::MeetingAlreadyActive(id)) if id == "m1"
    ));
    assert!(matches!(
        active_step("m1".to_string(), Ok(recording("m1")), false),
        ActiveStep::Reclaim(_)
    ));
    let mut stopped = recording("m1");
    stopped.mark_stopped(5_000, 1, 0);
    assert!(matches!(
        active_step("m1".to_string(), Ok(stopped), false),
        ActiveStep::Clear
    ));
    assert!(matches!(stop_target(None, None), Err(ComlinkError::MeetingNoActiveSession)));
    assert_eq!(stop_target(None, Some("m1".to_string())).unwrap(), "m1");
    assert!(prepare_stop("m1".to_string(), recording("m1")).is_ok());
}

fn resolved(selected: bool) -> ResolvedConfig {
    let mut config = Config::default();
    if selected {
        config.selected_model = Some("base".to_string());
        config.models.push(comlink::config::ModelEntry {
            name: "base".to_string(),
            path: "/m/base.bin".to_string(),
            selected: true,
        });
    }
    ResolvedConfig { paths: paths(), config, sources: Vec::new() }
}

fn start_options(mode: &str, source: &str) -> StartOptions {
    StartOptions {
        mode: mode.to_string(),
        source: source.to_string(),
        device: None,
        system_device: Some("BlackHole 2ch".to_string()),
        chunk_seconds: 300,
        no_llm: true,
    }
}

fn programs(model: &str) -> RuntimeDeps {
    RuntimeDeps {
        ffmpeg: "/f".to_string(),
        ffprobe: None,
        whisper_cpp: "/w".to_string(),
        whisper_model: model.to_string(),
    }
}

fn all_found() -> StartLookups {
    StartLookups { runtime: Ok(programs("/m/base.bin")), device: Ok(fallback_device()) }
}

fn nothing_found() -> StartLookups {
    StartLookups {
        runtime: Err(ComlinkError::WhisperFailed("absent".to_string())),
        device: Err(ComlinkError::AudioCaptureFailed("absent".to_string())),
    }
}

#[test]
fn starts_are_prepared_from_the_configuration() {
    let prepared =
        prepare_start(&resolved(true), None, all_found(), start_options("raw", "mic-only"))
            .unwrap();
    assert_eq!(prepared.request.source, MeetSourceMode::MicOnly);
    assert_eq!(prepared.request.device, ":0");
    assert_eq!(prepared.request.mode, "raw");
    assert_eq!(prepared.request.system_device.as_deref(), Some("BlackHole 2ch"));
    assert_eq!(prepared.request.chunk_seconds, 300);
    assert!(prepared.request.no_llm);
    assert_eq!(prepared.runtime.whisper_model, "/m/base.bin");
    assert!(prepared.device_note.is_none());
    assert!(matches!(model_for_start(&resolved(false).config), Err(ComlinkError::ModelMissing)));
    assert_eq!(model_for_start(&resolved(true).config).unwrap(), "/m/base.bin");
    assert_eq!(clamp_timeout(10), 1_000);
    assert_eq!(elapsed_since(1_000, 1_250), 250);
    assert_eq!(meeting_duration_ms(&[chunk(0, 0), chunk(1, 300_000)]), 600_000);
    assert!(finalizer_arguments(&recording("m1")).contains(&"m1".to_string()));
}

#[test]
fn the_first_check_of_a_start_that_fails_decides() {
    let failure = |selected: bool, found: StartLookups, mode: &str| {
        prepare_start(&resolved(selected), None, found, start_options(mode, "radio")).unwrap_err()
    };
    assert!(matches!(
        failure(false, nothing_found(), "gone"),
        ComlinkError::ModeNotFound(mode) if mode == "gone"
    ));
    assert!(matches!(failure(false, nothing_found(), "raw"), ComlinkError::ModelMissing));
    assert!(matches!(failure(false, all_found(), "raw"), ComlinkError::ModelMissing));
    assert!(matches!(failure(true, nothing_found(), "raw"), ComlinkError::WhisperFailed(_)));
    let deaf = StartLookups { device: nothing_found().device, ..all_found() };
    assert!(matches!(failure(true, deaf, "raw"), ComlinkError::AudioCaptureFailed(_)));
    assert!(matches!(
        failure(true, all_found(), "raw"),
        ComlinkError::InvalidConfigValue { name, value }
            if name == "meet start --source" && value == "radio"
    ));

    assert!(matches!(
        start_model(&resolved(false), "gone"),
        Err(ComlinkError::ModeNotFound(mode)) if mode == "gone"
    ));
    assert!(matches!(start_model(&resolved(false), "raw"), Err(ComlinkError::ModelMissing)));
    assert_eq!(start_model(&resolved(true), "raw").unwrap(), "/m/base.bin");
}

#[test]
fn starts_that_are_given_their_programs_need_no_model() {
    let found = StartLookups { device: all_found().device, ..nothing_found() };
    let given = Some(programs("/given.bin"));
    let prepared =
        prepare_start(&resolved(false), given, found, start_options("raw", "mic-only")).unwrap();
    assert_eq!(prepared.runtime.whisper_model, "/given.bin");
}

#[test]
fn the_default_microphone_is_noted() {
    let device = ResolvedRecordDevice {
        avfoundation_input: ":2".to_string(),
        name: Some("Desk Mic".to_string()),
        source: DeviceSource::SystemDefault,
    };
    let found = StartLookups { device: Ok(device), ..all_found() };
    let prepared =
        prepare_start(&resolved(true), None, found, start_options("raw", "mic-only")).unwrap();
    let note = prepared.device_note.unwrap();
    assert_eq!(note.name.as_deref(), Some("Desk Mic"));
    assert_eq!(note.avfoundation_input, ":2");
    assert_eq!(prepared.request.device, ":2");
}

#[test]
fn sources_name_their_devices() {
    assert_eq!(
        requested_system_device(Some(" A ".to_string()), Some("B".to_string())).as_deref(),
        Some("A")
    );
    assert!(same_audio_device(":BlackHole 2ch", "blackhole 2ch"));
    let plan = || {
        Ok(SystemAudioCapturePlan {
            device_name: "BlackHole 2ch".to_string(),
            avfoundation_input: ":BlackHole 2ch".to_string(),
        })
    };
    assert!(resolve_system_audio_device(None, Ok(Vec::new()), plan()).is_ok());
    assert!(build_meeting_source_metadata(
        MeetSourceMode::SystemOnly,
        ":0",
        Err(ComlinkError::AudioCaptureFailed("none".to_string())),
    )
    .is_err());
    let both = session_of("m1", MeetSourceMode::MicPlusSystem, false);
    let requests: Vec<_> =
        both.source.streams.iter().map(|stream| capture_request(stream).unwrap()).collect();
    assert_eq!(requests[0].label, MeetingSourceLabel::UserMic);
    assert_ne!(requests[0].chunks_dir, requests[1].chunks_dir);
    assert_eq!(MeetingSourceMetadata::default().streams.len(), 1);
}

#[test]
fn recorders_count_as_running_when_they_are_ours() {
    let mut session = recording("m1");
    session.source.streams[0].recorder_pid = Some(41);
    session.source.streams[0].recorder_identity = Some(capture(41).identity);
    assert!(matches!(
        session_recorder_identities(&session).as_slice(),
        [RecorderRef::Known(identity)] if identity.pid == 41
    ));
    let facts = |command: &str| RecorderFacts {
        identity: capture(41).identity,
        process: ProcessFacts {
            running: true,
            started_at: None,
            command: Some(command.to_string()),
        },
    };
    assert!(session_recorder_is_verified_running(&vec![facts("ffmpeg /c/chunk-%05d.wav")]));
    assert!(!session_recorder_is_verified_running(&vec![facts("sleep 30")]));
    let health = session_recorder_health(&session, &vec![Some(facts("sleep 30"))]);
    assert_eq!(health.len(), 1);
    assert!(!health[0].alive);
}

fn status_facts() -> StatusFacts {
    StatusFacts {
        recorders: Vec::new(),
        finalizer: None,
        locked: Ok(false),
        log_present: false,
        chunk_files: Ok(vec![(MeetingSourceLabel::UserMic, vec!["0.wav".to_string()])]),
        chunk_level: None,
        exported_level: None,
    }
}

#[test]
fn status_names_stale_and_failed_sessions() {
    let report = session_status_report(&recording("m1"), status_facts(), 4_000).unwrap();
    assert_eq!(report.session_id.as_deref(), Some("m1"));
    assert_eq!(report.status, "recording");
    assert_eq!(report.elapsed_ms, Some(3_000));
    assert_eq!(report.chunk_count, 1);
    assert!(report.stale);
    let mut failed = recording("m1");
    failed.mark_failed("boom".to_string());
    let report = session_status_report(&failed, status_facts(), 4_000).unwrap();
    assert!(!report.stale);
    assert_eq!(report.error.as_deref(), Some("boom"));
    assert!(report.warnings.iter().any(|warning| warning.contains("boom")));
    assert_eq!(no_session_report().session_id, None);
}

#[test]
fn the_newest_failure_is_told() {
    let mut failed = recording("m2");
    failed.mark_failed("boom".to_string());
    let found =
        resolve_default_status_session(None, vec![failed], Vec::new()).unwrap().unwrap();
    assert_eq!(found.session_id, "m2");
    assert!(resolve_default_status_session(None, Vec::new(), Vec::new()).unwrap().is_none());
    let unreadable = SkippedDir {
        skipped: SkippedSession { dir: "/s/m3".to_string(), reason: "EOF".to_string() },
        has_file: true,
    };
    assert!(resolve_default_status_session(None, Vec::new(), vec![unreadable]).is_err());
    assert!(matches!(
        read_session_for_status(
            "/s",
            "m1",
            Err(ComlinkError::Json("EOF".to_string())),
        ),
        Err(ComlinkError::MeetingSessionUnreadable { .. })
    ));
}

#[test]
fn exports_come_from_the_named_or_newest_session() {
    let mut stopped = recording("m1");
    stopped.mark_stopped(5_000, 1, 0);
    let sessions = vec![stopped.clone()];
    assert_eq!(resolve_export_session_id(None, &sessions, None).unwrap(), "m1");
    assert_eq!(
        resolve_export_session_id(Some("x".to_string()), &sessions, None).unwrap(),
        "x"
    );
    assert!(resolve_export_session_id(None, &Vec::new(), None).is_err());
    assert_eq!(transcript_target(Ok("m1".to_string()), None).unwrap(), "m1");
    let made = pipeline(&stopped);
    let export = export_from_pipeline(&stopped, &made);
    let read = |kind: MeetingExportKind, text: &str| {
        transcript("m1".to_string(), &stopped, kind, Ok(export.clone()), Ok(text.to_string()))
    };
    assert!(matches!(
        read(MeetingExportKind::Json, "{ truncated"),
        Err(ComlinkError::MeetingExportUnavailable(path)) if path.contains("key must be a string")
    ));
    assert_eq!(read(MeetingExportKind::Json, "{}").unwrap().format, "json");
    let markdown = read(MeetingExportKind::Markdown, "# text").unwrap();
    assert_eq!(markdown.content, "# text");
    assert!(markdown.transcript_retained);
    assert!(matches!(
        transcript(
            "m1".to_string(),
            &recording("m1"),
            MeetingExportKind::Json,
            Ok(export.clone()),
            Ok("{}".to_string()),
        ),
        Err(ComlinkError::MeetingNotStopped(id)) if id == "m1"
    ));
    let listed = list(sessions, Vec::new());
    assert_eq!(listed.sessions[0].session_id, "m1");
    assert_eq!(listed.sessions[0].status, "stopped");
    assert!(!mcp_privacy(&resolved(true)).network_listener);
}

fn dir_facts(session: Result<MeetingSessionState, ComlinkError>, wavs: usize) -> SessionDirFacts {
    let files = || (0..wavs).map(|index| format!("/s/m1/chunks/{index}.wav")).collect::<Vec<_>>();
    SessionDirFacts {
        dir: "/s/m1".to_string(),
        session,
        verified_running: false,
        recorded: Ok(files()),
        found: Ok(files()),
        export_error: None,
        export_may_exist: false,
    }
}

#[test]
fn audio_left_behind_is_reported() {
    let mut stopped = recording("m1");
    stopped.mark_stopped(5_000, 1, 0);
    let audit = meeting_audio_audit(vec![dir_facts(Ok(stopped.clone()), 2)], Vec::new());
    assert!(!audit.clean);
    assert_eq!(audit.unretained_leftovers[0].chunk_files, 2);
    assert!(meeting_audio_audit(vec![dir_facts(Ok(stopped), 0)], Vec::new()).clean);
    let mut kept = session_of("m1", MeetSourceMode::MicOnly, true);
    kept.mark_stopped(5_000, 1, 0);
    assert!(meeting_audio_audit(vec![dir_facts(Ok(kept), 2)], Vec::new()).clean);
    let unreadable = Err(ComlinkError::Json("EOF".to_string()));
    assert!(!meeting_audio_audit(vec![dir_facts(unreadable, 1)], Vec::new()).clean);
    let failed = list_store("/s", Listing::Failed("denied".to_string()));
    assert!(!meeting_audio_audit(Vec::new(), failed.scan_errors).clean);
}

#[test]
fn sound_files_are_found_in_nested_directories() {
    let tree = DirTree::Entries(vec![
        TreeEntry::File("/c/a.wav".to_string()),
        TreeEntry::File("/c/notes.txt".to_string()),
        TreeEntry::Directory(
            "/c/mic".to_string(),
            DirTree::Entries(vec![TreeEntry::File("/c/mic/b.WAV".to_string())]),
        ),
    ]);
    let found = wav_paths("/c", tree, 4).unwrap();
    assert!(found.contains(&"/c/a.wav".to_string()));
    assert!(!found.contains(&"/c/notes.txt".to_string()));
    assert!(wav_paths("/c", DirTree::Failed("denied".to_string()), 4).is_err());
    assert!(wav_paths("/c", DirTree::Absent, 4).unwrap().is_empty());
}

#[test]
fn sessions_are_recognised_up_to_the_first_failure() {
    let session = recording("m1");
    let config = Config::default();
    let heard_text = |chunk: &MeetingChunk, text: &str| {
        Ok(Transcript {
            text: text.to_string(),
            engine: "whisper.cpp".to_string(),
            model: "m".to_string(),
            duration_ms: 300_000,
            segments: Vec::new(),
            source: chunk_source(&session, chunk),
        })
    };
    assert!(!recognition_failed(&heard_text(&chunk(0, 0), "hello")));
    assert!(!recognition_failed(&Err(ComlinkError::EmptyTranscript)));
    assert!(recognition_failed(&Err(ComlinkError::WhisperFailed("boom".to_string()))));

    let chunks = || vec![chunk(0, 0), chunk(1, 300_000)];
    let outcomes = vec![heard_text(&chunk(0, 0), " hello "), Err(ComlinkError::EmptyTranscript)];
    let heard = recognise_session(&session, &config, chunks(), outcomes).unwrap();
    assert_eq!(heard.stitched.raw_text, "hello");
    let made = transcribe_session(heard, Ok(String::new()), None);
    assert_eq!(made.processed.final_text, "hello");
    assert_eq!(made.duration_ms, 600_000);
    assert_eq!(made.segments.len(), 1);

    let broken = vec![Err(ComlinkError::WhisperFailed("boom".to_string()))];
    assert!(matches!(
        recognise_session(&session, &config, chunks(), broken),
        Err(ComlinkError::WhisperFailed(_))
    ));
    assert!(matches!(
        recognise_session(&session, &config, Vec::new(), Vec::new()),
        Err(ComlinkError::AudioCaptureFailed(text)) if text.contains("no chunk files")
    ));
    let mut unknown = recording("m1");
    unknown.mode = "gone".to_string();
    let outcomes = vec![heard_text(&chunk(0, 0), "hello")];
    assert!(matches!(
        recognise_session(&unknown, &config, vec![chunk(0, 0)], outcomes),
        Err(ComlinkError::ModeNotFound(mode)) if mode == "gone"
    ));
}
