//! The life of a meeting: how it starts and stops, how its transcription is
//! finished, and in which sequence what is kept of it is written and what is not
//! kept is deleted.
use vstd::prelude::*;

use crate::asr::{SourceMetadata, Transcript};
use crate::config::{model_path, selected_model_path, Config, ResolvedConfig};
use crate::deps::RuntimeDeps;
use crate::error::ComlinkError;
use crate::llm::TransportError;
use crate::meet::{
    failed, have_session_paths, is_new_session, new_recording_session, stopped, transcribing,
    InactivityAutoStop, MeetSourceMode, MeetingRetentionPolicy, MeetingSessionState,
    MeetingSourceMetadata, MeetingStatus, NewMeetingSession, MEETING_SCHEMA_VERSION,
};
use crate::meet_export::{
    any_timed, are_artifacts, are_segments, build_export, build_segments_from_chunk_transcripts,
    capped_sum, is_export, is_segmenting, law_raw_text_is_all_that_was_heard, raw_text,
    raw_text_from_segments, segment_texts, session_artifacts, ChunkTranscript, MeetingArtifacts,
    MeetingAudioLevel, MeetingExport, MeetingSegment, MeetingSegmenting,
};
use crate::meet_recorders::{
    are_recorder_statuses, is_no_chunks_error, no_meeting_chunks_error, session_recorders_status,
    MeetRecorderStatus,
};
use crate::meet_store::{is_validated, MeetingChunk, NewMeetingPaths};
use crate::output::{
    complete_text, is_completed, is_mode, is_plan, plan_text, TextPlan, TextProcessingResult,
};
use crate::paths::{join_path, joined};
use crate::record::{DeviceSource, ProcessIdentity, ResolvedRecordDevice};
use crate::strings::{
    all_said, cat2, cat3, cat4, cat6, copy_opt, ends_with, lemma_texts_push, opt_text, said,
    starts_with, str_strip_prefix, str_strip_suffix, texts,
};
use crate::text::{mode_exists, validate_mode, ResolvedMode};

verus! {

/// The reminder that goes with every recording.
pub const CONSENT_REMINDER: &'static str =
    "Consent reminder: confirm everyone present knows this meeting is being recorded and transcribed.";

/// How long a stop waits for a recorder, in milliseconds.
pub const DEFAULT_STOP_TIMEOUT: u64 = 15_000;

/// The length of a chunk of audio, in seconds.
pub const DEFAULT_CHUNK_SECONDS: u64 = 300;

/// How long a finalize waits for the session's lock, in milliseconds: a detached
/// stop holds it until the finalizer is recorded.
pub const DEFAULT_FINALIZE_LOCK_WAIT: u64 = 30_000;

/// How long a stop waits for the session's lock, in milliseconds.
pub const DETACH_LOCK_WAIT: u64 = 2_000;

/// How long a recorder's last file is given to settle, in milliseconds.
pub const RECORDER_SETTLE: u64 = 250;

/// The log of a session's finalizer.
pub const FINALIZE_LOG_FILE: &'static str = "finalize.log";

/// Where the log of a session's finalizer lies.
pub fn finalize_log_path(session: &MeetingSessionState) -> (r: String)
    ensures
        r@ == joined(session.session_dir@, FINALIZE_LOG_FILE@),
{
    join_path(&session.session_dir, FINALIZE_LOG_FILE)
}

/// What the command line of a session's finalizer holds.
pub open spec fn finalizer_needle(id: Seq<char>) -> Seq<char> {
    "meet finalize "@ + id
}

/// What the command line of a session's finalizer holds.
pub fn finalizer_command_needle(id: &str) -> (r: String)
    ensures
        r@ == finalizer_needle(id@),
{
    cat2("meet finalize ", id)
}

/// The arguments of a session's finalizer.
pub fn finalizer_arguments(session: &MeetingSessionState) -> (r: Vec<String>)
    ensures
        texts(r@) == seq!["meet"@, "finalize"@, session.session_id@, "--format"@, "json"@],
{
    broadcast use lemma_texts_push;

    let mut r: Vec<String> = Vec::new();
    r.push("meet".to_owned());
    r.push("finalize".to_owned());
    r.push(session.session_id.clone());
    r.push("--format".to_owned());
    r.push("json".to_owned());
    assert(texts(r@) =~= seq![
        "meet"@,
        "finalize"@,
        session.session_id@,
        "--format"@,
        "json"@,
    ]);
    r
}

/// The difference of two times, kept to the range of the clock.
pub open spec fn clock_difference(now: int, started: int) -> int {
    let d = now - started;
    if d > i64::MAX {
        i64::MAX as int
    } else if d < i64::MIN {
        i64::MIN as int
    } else {
        d
    }
}

/// The time since a start; a start in the future wraps around.
pub open spec fn elapsed(now: int, started: int) -> int {
    let d = clock_difference(now, started);
    if d >= 0 {
        d
    } else {
        u64::MAX + 1 + d
    }
}

/// The milliseconds since a start.
pub fn elapsed_since(started_at_ms: i64, now_ms: i64) -> (r: u64)
    ensures
        r == elapsed(now_ms as int, started_at_ms as int),
{
    let d: i128 = now_ms as i128 - started_at_ms as i128;
    let d: i64 = if d > i64::MAX as i128 {
        i64::MAX
    } else if d < i64::MIN as i128 {
        i64::MIN
    } else {
        d as i64
    };
    if d >= 0 {
        d as u64
    } else {
        u64::MAX - (-(d + 1)) as u64
    }
}

/// A time to wait: at least a second.
pub fn clamp_timeout(timeout_ms: u64) -> (r: u64)
    ensures
        r == if timeout_ms < 1_000 {
            1_000
        } else {
            timeout_ms
        },
{
    if timeout_ms < 1_000 {
        1_000
    } else {
        timeout_ms
    }
}

/// The latest end of the first `n` chunks.
pub open spec fn latest_end(c: Seq<MeetingChunk>, n: int) -> int
    decreases n,
{
    if n <= 0 {
        0
    } else {
        let end = capped_sum(c[n - 1].start_ms as int, c[n - 1].duration_ms as int);
        let rest = latest_end(c, n - 1);
        if end > rest {
            end
        } else {
            rest
        }
    }
}

/// The length of a meeting: the latest end of its chunks.
pub open spec fn meeting_length(c: Seq<MeetingChunk>) -> int {
    latest_end(c, c.len() as int)
}

/// A meeting lasts as long as its latest chunk: no chunk ends later, and where there is
/// a chunk, one ends just then. A sum past the largest number counts as that number.
pub proof fn law_meeting_lasts_to_its_latest_end(c: Seq<MeetingChunk>)
    ensures
        forall|i: int|
            0 <= i < c.len() ==> meeting_length(c) == u64::MAX || (#[trigger] c[i]).start_ms
                + c[i].duration_ms <= meeting_length(c),
        c.len() > 0 ==> exists|i: int|
            0 <= i < c.len() && ((#[trigger] c[i]).start_ms + c[i].duration_ms == meeting_length(c)
                || (c[i].start_ms + c[i].duration_ms > u64::MAX && meeting_length(c) == u64::MAX)),
        c.len() == 0 ==> meeting_length(c) == 0,
{
    lemma_latest_end(c, c.len() as int);
}

/// A meeting's length is a number that can be held.
pub proof fn lemma_meeting_length(c: Seq<MeetingChunk>)
    ensures
        0 <= meeting_length(c) <= u64::MAX,
{
    lemma_latest_end(c, c.len() as int);
}

/// The latest end of some chunks is the end of one of them, and none ends later.
proof fn lemma_latest_end(c: Seq<MeetingChunk>, n: int)
    requires
        0 <= n <= c.len(),
    ensures
        0 <= latest_end(c, n) <= u64::MAX,
        forall|i: int|
            0 <= i < n ==> latest_end(c, n) == u64::MAX || (#[trigger] c[i]).start_ms
                + c[i].duration_ms <= latest_end(c, n),
        n > 0 ==> exists|i: int|
            0 <= i < n && ((#[trigger] c[i]).start_ms + c[i].duration_ms == latest_end(c, n) || (
            c[i].start_ms + c[i].duration_ms > u64::MAX && latest_end(c, n) == u64::MAX)),
    decreases n,
{
    if n > 0 {
        lemma_latest_end(c, n - 1);
        let last = c[n - 1];
        assert(0 <= n - 1 < c.len());
        if n > 1 {
            let k = choose|i: int|
                0 <= i < n - 1 && ((#[trigger] c[i]).start_ms + c[i].duration_ms == latest_end(
                    c,
                    n - 1,
                ) || (c[i].start_ms + c[i].duration_ms > u64::MAX && latest_end(c, n - 1)
                    == u64::MAX));
            assert(c[k].start_ms + c[k].duration_ms >= latest_end(c, n - 1));
        }
    }
}

/// The length of a meeting: no chunk ends later, and where there is a chunk, one ends
/// just then.
pub fn meeting_duration_ms(chunks: &[MeetingChunk]) -> (r: u64)
    ensures
        r == meeting_length(chunks@),
        forall|i: int|
            0 <= i < chunks@.len() ==> r == u64::MAX || (#[trigger] chunks@[i]).start_ms
                + chunks@[i].duration_ms <= r,
        chunks@.len() > 0 ==> exists|i: int|
            0 <= i < chunks@.len() && ((#[trigger] chunks@[i]).start_ms + chunks@[i].duration_ms
                == r || (chunks@[i].start_ms + chunks@[i].duration_ms > u64::MAX && r
                == u64::MAX)),
{
    proof {
        law_meeting_lasts_to_its_latest_end(chunks@);
    }
    let total: usize = chunks.len();
    let mut r: u64 = 0;
    let mut i: usize = 0;
    while i < total
        invariant
            i <= total,
            total == chunks@.len(),
            r == latest_end(chunks@, i as int),
        decreases total - i,
    {
        let end = chunks[i].end_ms();
        if end > r {
            r = end;
        }
        i += 1;
    }
    r
}

/// What is asked of a start.
#[derive(Debug, Clone)]
pub struct StartOptions {
    pub mode: String,
    /// `mic-only`, `system-only` or `mic-plus-system`.
    pub source: String,
    pub device: Option<String>,
    pub system_device: Option<String>,
    pub chunk_seconds: u64,
    pub no_llm: bool,
}

/// A start whose microphone and source are settled.
#[derive(Debug, Clone)]
pub struct StartRequest {
    pub mode: String,
    pub device: String,
    pub source: MeetSourceMode,
    pub system_device: Option<String>,
    pub chunk_seconds: u64,
    pub no_llm: bool,
}

/// Which default microphone is recorded.
#[derive(Debug, Clone, PartialEq, Eq)]
pub struct DeviceNote {
    pub name: Option<String>,
    pub avfoundation_input: String,
}

impl DeviceNote {
    /// The note in words.
    pub open spec fn text(self) -> Seq<char> {
        match self.name {
            Some(name) => "Using system default input device: "@ + name@ + " ("@
                + self.avfoundation_input@ + ")"@,
            None => "Using system default input device "@ + self.avfoundation_input@,
        }
    }

    /// The note in words.
    pub fn message(&self) -> (r: String)
        ensures
            r@ == self.text(),
    {
        match &self.name {
            Some(name) => crate::strings::cat5(
                "Using system default input device: ",
                name,
                " (",
                &self.avfoundation_input,
                ")",
            ),
            None => cat2("Using system default input device ", &self.avfoundation_input),
        }
    }
}

/// A start that can go ahead.
#[derive(Debug)]
pub struct PreparedStart {
    pub request: StartRequest,
    pub runtime: RuntimeDeps,
    pub device_note: Option<DeviceNote>,
    /// The microphone that is recorded where the source has one.
    pub input_device: ResolvedRecordDevice,
}

/// The model that a start transcribes with.
pub fn model_for_start(config: &Config) -> (r: Result<String, ComlinkError>)
    ensures
        match model_path(*config) {
            Some(path) => r matches Ok(p) && p@ == path,
            None => r == Err::<String, ComlinkError>(ComlinkError::ModelMissing),
        },
{
    match selected_model_path(config) {
        Some(path) => Ok(path),
        None => Err(ComlinkError::ModelMissing),
    }
}

/// Whether `p` is the start that options, programs and a microphone make.
pub open spec fn is_prepared_start(
    options: StartOptions,
    runtime: RuntimeDeps,
    device: ResolvedRecordDevice,
    source: MeetSourceMode,
    p: PreparedStart,
) -> bool {
    &&& p.request.mode == options.mode
    &&& p.request.device@ == device.avfoundation_input@
    &&& p.request.source == source
    &&& p.request.system_device == options.system_device
    &&& p.request.chunk_seconds == options.chunk_seconds
    &&& p.request.no_llm == options.no_llm
    &&& p.runtime == runtime
    &&& p.input_device == device
    &&& match p.device_note {
        Some(note) => device.source == DeviceSource::SystemDefault && opt_text(note.name)
            == opt_text(device.name) && note.avfoundation_input@ == device.avfoundation_input@,
        None => device.source != DeviceSource::SystemDefault,
    }
}

/// The model that the programs are looked for with: a start needs a mode that exists
/// first, and then a model.
pub fn start_model(resolved: &ResolvedConfig, mode: &str) -> (r: Result<String, ComlinkError>)
    ensures
        if !mode_exists(resolved.config, mode@) {
            r matches Err(ComlinkError::ModeNotFound(name)) && name@ == mode@
        } else {
            match model_path(resolved.config) {
                Some(path) => r matches Ok(p) && p@ == path,
                None => r == Err::<String, ComlinkError>(ComlinkError::ModelMissing),
            }
        },
{
    match validate_mode(&resolved.config, mode) {
        Ok(_) => model_for_start(&resolved.config),
        Err(e) => Err(e),
    }
}

/// What was found for a start: the programs, with the selected model, and the
/// microphone. Where a start does not come so far, what stands here does not count.
#[derive(Debug)]
pub struct StartLookups {
    pub runtime: Result<RuntimeDeps, ComlinkError>,
    pub device: Result<ResolvedRecordDevice, ComlinkError>,
}

/// The programs of a start: those it was given, else those that were found with the
/// selected model, which there has to be.
pub open spec fn start_runtime(
    config: Config,
    given: Option<RuntimeDeps>,
    found: Result<RuntimeDeps, ComlinkError>,
) -> Result<RuntimeDeps, ComlinkError> {
    match given {
        Some(runtime) => Ok(runtime),
        None => if model_path(config) is None {
            Err(ComlinkError::ModelMissing)
        } else {
            found
        },
    }
}

/// Settles a start. The mode is looked at first, then the path of the model, then the
/// programs, then the microphone, then the source; the first that fails is the error.
/// A start that is given its programs needs no model of its own.
pub fn prepare_start(
    resolved: &ResolvedConfig,
    runtime: Option<RuntimeDeps>,
    found: StartLookups,
    options: StartOptions,
) -> (r: Result<PreparedStart, ComlinkError>)
    ensures
        if !mode_exists(resolved.config, options.mode@) {
            r matches Err(ComlinkError::ModeNotFound(name)) && name@ == options.mode@
        } else {
            match start_runtime(resolved.config, runtime, found.runtime) {
                Err(e) => r == Err::<PreparedStart, ComlinkError>(e),
                Ok(programs) => match found.device {
                    Err(e) => r == Err::<PreparedStart, ComlinkError>(e),
                    Ok(device) => match MeetSourceMode::named(options.source@) {
                        None => r matches Err(ComlinkError::InvalidConfigValue { name, value })
                            && name@ == "meet start --source"@ && value == options.source,
                        Some(source) => r matches Ok(p) && is_prepared_start(
                            options,
                            programs,
                            device,
                            source,
                            p,
                        ),
                    },
                },
            }
        },
{
    match validate_mode(&resolved.config, &options.mode) {
        Ok(_) => {},
        Err(e) => return Err(e),
    }
    let runtime = match runtime {
        Some(runtime) => runtime,
        None => {
            match model_for_start(&resolved.config) {
                Ok(_) => {},
                Err(e) => return Err(e),
            }
            match found.runtime {
                Ok(runtime) => runtime,
                Err(e) => return Err(e),
            }
        },
    };
    let device = match found.device {
        Ok(device) => device,
        Err(e) => return Err(e),
    };
    let source = match MeetSourceMode::parse(&options.source) {
        Some(source) => source,
        None => {
            return Err(
                ComlinkError::InvalidConfigValue {
                    name: "meet start --source",
                    value: options.source,
                },
            );
        },
    };
    let device_note = if device.source == DeviceSource::SystemDefault {
        Some(
            DeviceNote {
                name: copy_opt(&device.name),
                avfoundation_input: device.avfoundation_input.clone(),
            },
        )
    } else {
        None
    };
    Ok(
        PreparedStart {
            request: StartRequest {
                mode: options.mode,
                device: device.avfoundation_input.clone(),
                source,
                system_device: options.system_device,
                chunk_seconds: options.chunk_seconds,
                no_llm: options.no_llm,
            },
            runtime,
            device_note,
            input_device: device,
        },
    )
}

/// What to do about the session that is named as being recorded.
#[derive(Debug)]
pub enum ActiveStep {
    /// It is being recorded: no other can start.
    Refuse(ComlinkError),
    /// Nothing records it: it is stopped and its name cleared.
    Reclaim(MeetingSessionState),
    /// It is over or cannot be read: its name is cleared.
    Clear,
}

/// What a start does about the session that is named as being recorded. Only a
/// recording whose recorder is certain to run stands in the way.
pub fn active_step(
    active_id: String,
    stored: Result<MeetingSessionState, ComlinkError>,
    verified_running: bool,
) -> (r: ActiveStep)
    ensures
        match stored {
            Ok(session) => if session.status == MeetingStatus::Recording {
                if verified_running {
                    r == ActiveStep::Refuse(ComlinkError::MeetingAlreadyActive(active_id))
                } else {
                    r == ActiveStep::Reclaim(session)
                }
            } else {
                r == ActiveStep::Clear
            },
            Err(_) => r == ActiveStep::Clear,
        },
{
    match stored {
        Ok(session) => if session.status == MeetingStatus::Recording {
            if verified_running {
                ActiveStep::Refuse(ComlinkError::MeetingAlreadyActive(active_id))
            } else {
                ActiveStep::Reclaim(session)
            }
        } else {
            ActiveStep::Clear
        },
        Err(_) => ActiveStep::Clear,
    }
}

/// Stops a recording that nothing records any more; chunks that cannot be listed
/// count as none.
pub fn reclaim_inactive_recording_session(
    session: &mut MeetingSessionState,
    chunks: Result<Vec<MeetingChunk>, ComlinkError>,
    now_ms: i64,
)
    ensures
        *final(session) == stopped(
            *old(session),
            now_ms,
            match chunks {
                Ok(c) => meeting_length(c@) as u64,
                Err(_) => 0,
            },
            0,
        ),
{
    let duration_ms: u64 = match chunks {
        Ok(chunks) => meeting_duration_ms(&chunks),
        Err(_) => 0,
    };
    session.mark_stopped(now_ms, duration_ms, 0);
}

/// The seconds of a chunk: at least one.
pub open spec fn chunk_seconds_of(seconds: u64) -> u64 {
    if seconds < 1 {
        1
    } else {
        seconds
    }
}

/// Whether `s` is the session that a start makes.
pub open spec fn is_started_session(
    request: StartRequest,
    source: MeetingSourceMetadata,
    model: Seq<char>,
    retention: MeetingRetentionPolicy,
    paths: NewMeetingPaths,
    now_ms: i64,
    s: MeetingSessionState,
) -> bool {
    let ms = chunk_seconds_of(request.chunk_seconds) * 1000;
    exists|o: NewMeetingSession|
        {
            &&& #[trigger] is_new_session(o, now_ms, s)
            &&& o.session_id == paths.session_id
            &&& o.mode == request.mode
            &&& o.no_llm == request.no_llm
            &&& o.device == request.device
            &&& o.source.mode == source.mode
            &&& have_session_paths(
                source.streams@,
                paths.chunks_dir@,
                paths.recorder_stderr_path@,
                request.source == MeetSourceMode::MicOnly && source.streams@.len() <= 1,
                o.source.streams@,
            )
            &&& o.chunk_duration_ms == if ms > u64::MAX {
                u64::MAX as int
            } else {
                ms
            }
            &&& o.model@ == model
            &&& o.model_path@ == model
            &&& o.retention == retention
            &&& o.session_dir == paths.session_dir
            &&& o.chunks_dir == paths.chunks_dir
            &&& o.recorder_stderr_path == paths.recorder_stderr_path
            &&& o.segments_jsonl_path == paths.segments_jsonl_path
            &&& o.json_export_path == paths.json_export_path
            &&& o.markdown_export_path == paths.markdown_export_path
        }
}

/// The session that a start makes.
pub fn session_for_start(
    request: StartRequest,
    source: MeetingSourceMetadata,
    model: &str,
    retention: MeetingRetentionPolicy,
    paths: NewMeetingPaths,
    now_ms: i64,
) -> (r: MeetingSessionState)
    ensures
        is_started_session(request, source, model@, retention, paths, now_ms, r),
{
    let seconds: u64 = if request.chunk_seconds < 1 {
        1
    } else {
        request.chunk_seconds
    };
    let source = source.with_session_paths(
        &paths.chunks_dir,
        &paths.recorder_stderr_path,
        request.source == MeetSourceMode::MicOnly,
    );
    let options = NewMeetingSession {
        session_id: paths.session_id,
        mode: request.mode,
        no_llm: request.no_llm,
        device: request.device,
        source,
        chunk_duration_ms: match seconds.checked_mul(1000) {
            Some(ms) => ms,
            None => u64::MAX,
        },
        model: model.to_owned(),
        model_path: model.to_owned(),
        retention,
        session_dir: paths.session_dir,
        chunks_dir: paths.chunks_dir,
        recorder_stderr_path: paths.recorder_stderr_path,
        segments_jsonl_path: paths.segments_jsonl_path,
        json_export_path: paths.json_export_path,
        markdown_export_path: paths.markdown_export_path,
    };
    let ghost o = options;
    let r = new_recording_session(options, now_ms);
    assert(is_new_session(o, now_ms, r));
    r
}

/// What a start reports.
#[derive(Debug, Clone)]
pub struct MeetStartStatus {
    pub schema_version: &'static str,
    pub session_id: String,
    pub status: &'static str,
    pub elapsed_ms: u64,
    pub recorder_pid: u32,
    pub recorders: Vec<MeetRecorderStatus>,
    pub source: MeetingSourceMetadata,
    pub session_dir: String,
    pub chunks_dir: String,
    pub segments_jsonl: String,
    pub json_export: String,
    pub markdown_export: String,
    pub consent_reminder: &'static str,
    pub inactivity_auto_stop: InactivityAutoStop,
}

/// What a start reports of the session that it made.
pub fn start_status(session: MeetingSessionState, now_ms: i64) -> (r: MeetStartStatus)
    ensures
        r.schema_version@ == MEETING_SCHEMA_VERSION@,
        r.session_id == session.session_id,
        r.status@ == "recording"@,
        r.elapsed_ms == elapsed(now_ms as int, session.started_at_ms as int),
        r.recorder_pid == match session.recorder_pid {
            Some(pid) => pid,
            None => 0,
        },
        are_recorder_statuses(session, session.source.streams@.len() as int, r.recorders@),
        r.source == session.source,
        r.session_dir == session.session_dir,
        r.chunks_dir == session.chunks_dir,
        r.segments_jsonl == session.segments_jsonl_path,
        r.json_export == session.json_export_path,
        r.markdown_export == session.markdown_export_path,
        r.consent_reminder@ == CONSENT_REMINDER@,
        r.inactivity_auto_stop == session.inactivity_auto_stop,
{
    let recorders = session_recorders_status(&session);
    MeetStartStatus {
        schema_version: MEETING_SCHEMA_VERSION,
        status: "recording",
        elapsed_ms: elapsed_since(session.started_at_ms, now_ms),
        recorder_pid: match session.recorder_pid {
            Some(pid) => pid,
            None => 0,
        },
        recorders,
        session_id: session.session_id,
        source: session.source,
        session_dir: session.session_dir,
        chunks_dir: session.chunks_dir,
        segments_jsonl: session.segments_jsonl_path,
        json_export: session.json_export_path,
        markdown_export: session.markdown_export_path,
        consent_reminder: CONSENT_REMINDER,
        inactivity_auto_stop: session.inactivity_auto_stop,
    }
}

/// The session that a stop is about: the one given, or the one being recorded.
pub fn stop_target(id: Option<String>, active: Option<String>) -> (r: Result<String, ComlinkError>)
    ensures
        r == match id {
            Some(id) => Ok::<String, ComlinkError>(id),
            None => match active {
                Some(id) => Ok(id),
                None => Err(ComlinkError::MeetingNoActiveSession),
            },
        },
{
    match id {
        Some(id) => Ok(id),
        None => match active {
            Some(id) => Ok(id),
            None => Err(ComlinkError::MeetingNoActiveSession),
        },
    }
}

/// The session that is stopped: it has to be recording.
pub fn prepare_stop(id: String, session: MeetingSessionState) -> (r: Result<
    MeetingSessionState,
    ComlinkError,
>)
    ensures
        r == if session.status == MeetingStatus::Recording {
            Ok::<MeetingSessionState, ComlinkError>(session)
        } else {
            Err(ComlinkError::MeetingNotRecording(id))
        },
{
    if session.status != MeetingStatus::Recording {
        return Err(ComlinkError::MeetingNotRecording(id));
    }
    Ok(session)
}

/// Whether `e` is what stands in the way of transcription: that there is no audio.
pub open spec fn is_chunk_check(
    session: MeetingSessionState,
    chunks: Seq<MeetingChunk>,
    e: Option<ComlinkError>,
) -> bool {
    if chunks.len() == 0 {
        e matches Some(error) && is_no_chunks_error(session, error)
    } else {
        e is None
    }
}

/// Stops a session before it is transcribed in place. It is stopped whatever comes
/// of the transcription; without audio there is none.
pub fn stop_before_transcription(
    session: &mut MeetingSessionState,
    stopped_at_ms: i64,
    chunks: &[MeetingChunk],
) -> (r: Option<ComlinkError>)
    ensures
        *final(session) == stopped(
            *old(session),
            stopped_at_ms,
            meeting_length(chunks@) as u64,
            0,
        ),
        is_chunk_check(*final(session), chunks@, r),
{
    session.mark_stopped(stopped_at_ms, meeting_duration_ms(chunks), 0);
    if chunks.len() == 0 {
        Some(no_meeting_chunks_error(session))
    } else {
        None
    }
}

/// Stops a session whose transcription is left to a finalizer. Without audio it is
/// stopped for good.
pub fn stop_for_finalizer(
    session: &mut MeetingSessionState,
    stopped_at_ms: i64,
    chunks: &[MeetingChunk],
    now_ms: i64,
) -> (r: Option<ComlinkError>)
    ensures
        *final(session) == if chunks@.len() == 0 {
            stopped(*old(session), stopped_at_ms, meeting_length(chunks@) as u64, 0)
        } else {
            transcribing(
                *old(session),
                stopped_at_ms,
                meeting_length(chunks@) as u64,
                now_ms,
            )
        },
        is_chunk_check(*final(session), chunks@, r),
{
    let duration_ms = meeting_duration_ms(chunks);
    if chunks.len() == 0 {
        session.mark_stopped(stopped_at_ms, duration_ms, 0);
        Some(no_meeting_chunks_error(session))
    } else {
        session.mark_transcribing(stopped_at_ms, duration_ms, now_ms);
        None
    }
}

/// What a detached stop reports.
#[derive(Debug)]
pub struct MeetDetachedStatus {
    pub schema_version: &'static str,
    pub session_id: String,
    pub status: &'static str,
    pub elapsed_ms: u64,
    pub preliminary_duration_ms: u64,
    pub chunk_count: usize,
    pub finalizer_pid: u32,
    pub artifacts: MeetingArtifacts,
    pub finalize_log: String,
}

/// Whether `r` is what a detached stop reports.
pub open spec fn is_detached_status(
    session: MeetingSessionState,
    pid: u32,
    chunks: Seq<MeetingChunk>,
    now_ms: i64,
    r: MeetDetachedStatus,
) -> bool {
    &&& r.schema_version@ == MEETING_SCHEMA_VERSION@
    &&& r.session_id@ == session.session_id@
    &&& r.status@ == "transcribing"@
    &&& r.elapsed_ms == elapsed(now_ms as int, session.started_at_ms as int)
    &&& r.preliminary_duration_ms == meeting_length(chunks)
    &&& r.chunk_count == chunks.len()
    &&& r.finalizer_pid == pid
    &&& are_artifacts(session, r.artifacts)
    &&& r.finalize_log@ == joined(session.session_dir@, FINALIZE_LOG_FILE@)
}

/// What comes of the launch of a finalizer.
#[derive(Debug)]
pub enum Launched {
    /// It runs, and the session names it.
    Running(MeetDetachedStatus),
    /// It does not: the session has failed, this line goes to its log, and this is
    /// the error.
    Failed(String, ComlinkError),
}

/// Records the launch of a finalizer, or its failure, in a session.
pub fn after_launch(
    session: &mut MeetingSessionState,
    launched: Result<ProcessIdentity, ComlinkError>,
    chunks: &[MeetingChunk],
    now_ms: i64,
) -> (r: Launched)
    ensures
        match launched {
            Ok(identity) => *final(session) == (MeetingSessionState {
                finalizer: Some(identity),
                ..*old(session)
            }) && (r matches Launched::Running(status) && is_detached_status(
                *final(session),
                identity.pid,
                chunks@,
                now_ms,
                status,
            )),
            Err(e) => r matches Launched::Failed(
                line,
                ComlinkError::MeetingFinalizeLaunchFailed(reason),
            ) && reason@ == e.text() && line@ == "finalizer launch failed: "@ + e.text()
                && *final(session) == failed(*old(session), line),
        },
{
    match launched {
        Ok(identity) => {
            let pid = identity.pid;
            session.finalizer = Some(identity);
            Launched::Running(
                MeetDetachedStatus {
                    schema_version: MEETING_SCHEMA_VERSION,
                    session_id: session.session_id.clone(),
                    status: "transcribing",
                    elapsed_ms: elapsed_since(session.started_at_ms, now_ms),
                    preliminary_duration_ms: meeting_duration_ms(chunks),
                    chunk_count: chunks.len(),
                    finalizer_pid: pid,
                    artifacts: session_artifacts(session),
                    finalize_log: finalize_log_path(session),
                },
            )
        },
        Err(e) => {
            let reason = e.message();
            let line = cat2("finalizer launch failed: ", &reason);
            session.mark_failed(line.clone());
            Launched::Failed(line, ComlinkError::MeetingFinalizeLaunchFailed(reason))
        },
    }
}

/// A line of a finalizer's log.
pub fn finalize_log_line(line: &str) -> (r: String)
    ensures
        r@ == "comlink meet finalize: "@ + line@ + "\n"@,
{
    cat3("comlink meet finalize: ", line, "\n")
}

/// The log entry for a failure that could not be recorded in the session.
pub fn unrecorded_failure(
    session: &MeetingSessionState,
    save_error: &ComlinkError,
    original: &ComlinkError,
) -> (r: String)
    ensures
        r@ == "could not record the failed state for "@ + session.session_id@ + " ("@
            + save_error.text() + "); original error: "@ + original.text(),
{
    cat6(
        "could not record the failed state for ",
        &session.session_id,
        " (",
        &save_error.message(),
        "); original error: ",
        &original.message(),
    )
}

/// The log entry for a name of the session being recorded that could not be
/// cleared.
pub fn uncleared_active(
    session: &MeetingSessionState,
    clear_error: &ComlinkError,
    original: &ComlinkError,
) -> (r: String)
    ensures
        r@ == "could not clear the active-session pointer for "@ + session.session_id@ + " ("@
            + clear_error.text() + "); original error: "@ + original.text(),
{
    cat6(
        "could not clear the active-session pointer for ",
        &session.session_id,
        " (",
        &clear_error.message(),
        "); original error: ",
        &original.message(),
    )
}

/// The reason why an export is not valid: what stands in brackets behind its path,
/// or the error as a whole.
pub open spec fn invalid_reason(path: Seq<char>, validation: ComlinkError) -> Seq<char> {
    match validation {
        ComlinkError::MeetingExportUnavailable(detail) => {
            let d = detail@;
            let head = path + " ("@;
            if starts_with(d, head) && ends_with(d.skip(head.len() as int), ")"@) {
                d.skip(head.len() as int).take(d.len() - head.len() - 1)
            } else {
                d
            }
        },
        _ => validation.text(),
    }
}

/// Whether `r` is the error for an export that is there but not valid.
pub open spec fn is_invalid_export(
    session: MeetingSessionState,
    validation: ComlinkError,
    r: ComlinkError,
) -> bool {
    r matches ComlinkError::MeetingExportInvalid { id, path, reason } && id@ == session.session_id@
        && path@ == session.json_export_path@ && reason@ == invalid_reason(
        session.json_export_path@,
        validation,
    )
}

/// The error for an export that is there, or may be, but is not valid. It may have
/// been edited, so it is never replaced in silence.
pub fn invalid_export_error(
    session: &MeetingSessionState,
    validation: &ComlinkError,
    may_exist: bool,
) -> (r: Option<ComlinkError>)
    ensures
        if may_exist {
            r matches Some(e) && is_invalid_export(*session, *validation, e)
        } else {
            r is None
        },
{
    if !may_exist {
        return None;
    }
    let reason = match validation {
        ComlinkError::MeetingExportUnavailable(detail) => {
            let head = cat2(&session.json_export_path, " (");
            proof {
                reveal_strlit(")");
            }
            match str_strip_prefix(detail, &head) {
                Some(rest) => match str_strip_suffix(&rest, ")") {
                    Some(reason) => reason,
                    None => detail.clone(),
                },
                None => detail.clone(),
            }
        },
        other => other.message(),
    };
    Some(
        ComlinkError::MeetingExportInvalid {
            id: session.session_id.clone(),
            path: session.json_export_path.clone(),
            reason,
        },
    )
}

/// When the session stopped, as its export has it, or as itself does.
pub open spec fn stopped_time(session: MeetingSessionState, e: MeetingExport) -> Option<i64> {
    if e.session.stopped_at_ms is Some {
        e.session.stopped_at_ms
    } else {
        session.stopped_at_ms
    }
}

/// Whether a stopped session disagrees with its export.
pub open spec fn needs_repair(session: MeetingSessionState, e: MeetingExport) -> bool {
    !(session.segment_count == e.session.segment_count && session.duration_ms == Some(
        e.session.duration_ms,
    ) && session.stopped_at_ms == stopped_time(session, e))
}

/// The session stopped as its export has it.
pub open spec fn stopped_as_exported(session: MeetingSessionState, e: MeetingExport, now_ms: i64) -> MeetingSessionState {
    stopped(
        session,
        match stopped_time(session, e) {
            Some(ms) => ms,
            None => now_ms,
        },
        e.session.duration_ms,
        e.session.segment_count,
    )
}

/// The time at which a session stopped.
fn time_stopped(session: &MeetingSessionState, export: &MeetingExport) -> (r: Option<i64>)
    ensures
        r == stopped_time(*session, *export),
{
    match export.session.stopped_at_ms {
        Some(ms) => Some(ms),
        None => session.stopped_at_ms,
    }
}

/// Brings a stopped session in line with its export, and says whether that changed
/// anything.
pub fn repair_stopped_session_from_export(
    session: &mut MeetingSessionState,
    export: &MeetingExport,
    now_ms: i64,
) -> (r: bool)
    ensures
        r == needs_repair(*old(session), *export),
        *final(session) == if r {
            stopped_as_exported(*old(session), *export, now_ms)
        } else {
            *old(session)
        },
{
    let stopped_at_ms = time_stopped(session, export);
    let same_duration = match session.duration_ms {
        Some(ms) => ms == export.session.duration_ms,
        None => false,
    };
    let same_stop = match (session.stopped_at_ms, stopped_at_ms) {
        (Some(a), Some(b)) => a == b,
        (None, None) => true,
        _ => false,
    };
    if session.segment_count == export.session.segment_count && same_duration && same_stop {
        return false;
    }
    session.mark_stopped(
        match stopped_at_ms {
            Some(ms) => ms,
            None => now_ms,
        },
        export.session.duration_ms,
        export.session.segment_count,
    );
    true
}

/// Once a session is in line with its export it stays so.
pub proof fn law_repair_is_idempotent(session: MeetingSessionState, e: MeetingExport, now_ms: i64)
    ensures
        !needs_repair(stopped_as_exported(session, e, now_ms), e),
{
}

/// Something that is done to what is stored of a meeting.
#[derive(Debug, Clone, Copy, PartialEq, Eq, Structural)]
pub enum Effect {
    /// The session is saved with the number of chunks transcribed.
    SaveProgress,
    /// The segments are written.
    WriteSegments,
    /// The JSON and the Markdown export are written.
    WriteExports,
    /// The Markdown export is written; the JSON export is there.
    WriteMarkdown,
    /// The chunks of audio are deleted.
    DeleteAudio,
    /// The session is saved as stopped.
    SaveStopped,
}

/// How a meeting is finished.
#[derive(Debug, Clone, Copy, PartialEq, Eq, Structural)]
pub enum JobPlan {
    /// A stop that transcribed in place.
    Stop { keep_audio: bool },
    /// A finalize that transcribed.
    Finalize { keep_audio: bool },
    /// A finalize of a meeting that was transcribed and exported.
    Recover { keep_audio: bool },
    /// A finalize of a meeting that was finished.
    Report { repair: bool, write_markdown: bool, write_segments: bool, keep_audio: bool },
}

/// An effect where something holds.
pub open spec fn effect_if(b: bool, e: Effect) -> Seq<Effect> {
    if b {
        seq![e]
    } else {
        Seq::empty()
    }
}

impl JobPlan {
    /// What is done, in its sequence.
    pub open spec fn effects(self) -> Seq<Effect> {
        match self {
            JobPlan::Stop { keep_audio } | JobPlan::Finalize { keep_audio } => seq![
                Effect::SaveProgress,
                Effect::WriteSegments,
                Effect::WriteExports,
            ] + effect_if(!keep_audio, Effect::DeleteAudio) + seq![Effect::SaveStopped],
            JobPlan::Recover { keep_audio } => seq![Effect::WriteSegments, Effect::WriteMarkdown]
                + effect_if(!keep_audio, Effect::DeleteAudio) + seq![Effect::SaveStopped],
            JobPlan::Report { repair, write_markdown, write_segments, keep_audio } => effect_if(
                repair,
                Effect::SaveStopped,
            ) + effect_if(write_markdown, Effect::WriteMarkdown) + effect_if(
                write_segments,
                Effect::WriteSegments,
            ) + effect_if(!keep_audio, Effect::DeleteAudio),
        }
    }

    /// Whether the audio is kept.
    pub open spec fn keeps_audio(self) -> bool {
        match self {
            JobPlan::Stop { keep_audio } => keep_audio,
            JobPlan::Finalize { keep_audio } => keep_audio,
            JobPlan::Recover { keep_audio } => keep_audio,
            JobPlan::Report { keep_audio, .. } => keep_audio,
        }
    }

    /// Whether the session counts as failed once an effect has failed. What a stop
    /// had committed before stands where just its last save fails; of a finished
    /// meeting just the cleanup can fail.
    pub open spec fn fails_session(self, e: Effect) -> bool {
        match self {
            JobPlan::Stop { .. } => e != Effect::SaveStopped,
            JobPlan::Finalize { .. } => true,
            JobPlan::Recover { .. } => true,
            JobPlan::Report { .. } => e == Effect::DeleteAudio,
        }
    }

    /// What is done, in its sequence.
    pub fn effect_list(&self) -> (r: Vec<Effect>)
        ensures
            r@ == self.effects(),
    {
        let mut r: Vec<Effect> = Vec::new();
        match *self {
            JobPlan::Stop { keep_audio } | JobPlan::Finalize { keep_audio } => {
                r.push(Effect::SaveProgress);
                r.push(Effect::WriteSegments);
                r.push(Effect::WriteExports);
                if !keep_audio {
                    r.push(Effect::DeleteAudio);
                }
                r.push(Effect::SaveStopped);
            },
            JobPlan::Recover { keep_audio } => {
                r.push(Effect::WriteSegments);
                r.push(Effect::WriteMarkdown);
                if !keep_audio {
                    r.push(Effect::DeleteAudio);
                }
                r.push(Effect::SaveStopped);
            },
            JobPlan::Report { repair, write_markdown, write_segments, keep_audio } => {
                if repair {
                    r.push(Effect::SaveStopped);
                }
                if write_markdown {
                    r.push(Effect::WriteMarkdown);
                }
                if write_segments {
                    r.push(Effect::WriteSegments);
                }
                if !keep_audio {
                    r.push(Effect::DeleteAudio);
                }
            },
        }
        assert(r@ =~= self.effects());
        r
    }

    /// Whether the session counts as failed once an effect has failed.
    fn marks_failed(&self, effect: Effect) -> (r: bool)
        ensures
            r == self.fails_session(effect),
    {
        match *self {
            JobPlan::Stop { .. } => effect != Effect::SaveStopped,
            JobPlan::Finalize { .. } => true,
            JobPlan::Recover { .. } => true,
            JobPlan::Report { .. } => effect == Effect::DeleteAudio,
        }
    }
}

/// A meeting that is being finished: its plan, and how many of its effects are done.
#[derive(Debug, Clone, Copy, PartialEq, Eq, Structural)]
pub struct Job {
    pub plan: JobPlan,
    pub done: usize,
}

/// What follows an effect.
#[derive(Debug)]
pub enum JobStep {
    /// The job goes on.
    Continue(Job),
    /// The job ends with an error.
    Refuse(ComlinkError),
    /// The job ends with an error that the session records.
    Fail(ComlinkError),
}

impl Job {
    /// Whether no more is done than there is to do.
    pub open spec fn wf(self) -> bool {
        self.done <= self.plan.effects().len()
    }

    /// What is done.
    pub open spec fn performed(self) -> Seq<Effect> {
        self.plan.effects().take(self.done as int)
    }

    /// What is done next.
    pub open spec fn upcoming(self) -> Option<Effect> {
        if self.done < self.plan.effects().len() {
            Some(self.plan.effects()[self.done as int])
        } else {
            None
        }
    }

    /// A job of which nothing is done.
    pub fn new(plan: JobPlan) -> (r: Self)
        ensures
            r == (Job { plan, done: 0 }),
            r.wf(),
            r.performed() == Seq::<Effect>::empty(),
    {
        Job { plan, done: 0 }
    }

    /// What is done next; `None` once all is done.
    pub fn next(&self) -> (r: Option<Effect>)
        ensures
            r == self.upcoming(),
    {
        let effects = self.plan.effect_list();
        if self.done < effects.len() {
            Some(effects[self.done])
        } else {
            None
        }
    }

    /// What follows the effect that is next, given what came of it. Just a success
    /// goes on.
    pub fn after(self, outcome: Result<(), ComlinkError>) -> (r: JobStep)
        requires
            self.upcoming() is Some,
        ensures
            match outcome {
                Ok(_) => r matches JobStep::Continue(job) && job == (Job {
                    plan: self.plan,
                    done: (self.done + 1) as usize,
                }) && job.wf() && job.performed() == self.performed().push(
                    self.upcoming()->Some_0,
                ),
                Err(e) => r == if self.plan.fails_session(self.upcoming()->Some_0) {
                    JobStep::Fail(e)
                } else {
                    JobStep::Refuse(e)
                },
            },
    {
        let effects = self.plan.effect_list();
        let effect = effects[self.done];
        match outcome {
            Ok(_) => {
                let job = Job { plan: self.plan, done: self.done + 1 };
                assert(job.performed() =~= self.performed().push(self.upcoming()->Some_0));
                JobStep::Continue(job)
            },
            Err(e) => if self.plan.marks_failed(effect) {
                JobStep::Fail(e)
            } else {
                JobStep::Refuse(e)
            },
        }
    }
}

/// Audio is deleted just where it is not kept, and never before what is kept of the
/// meeting is on disk: the segments and the exports of a meeting that is being
/// finished; those of a finished one are there, and where one is missing it is
/// written first.
pub proof fn law_audio_outlives_exports(job: Job)
    requires
        job.upcoming() == Some(Effect::DeleteAudio),
    ensures
        !job.plan.keeps_audio(),
        job.plan is Stop || job.plan is Finalize ==> job.performed().contains(
            Effect::WriteSegments,
        ) && job.performed().contains(Effect::WriteExports),
        job.plan is Recover ==> job.performed().contains(Effect::WriteSegments)
            && job.performed().contains(Effect::WriteMarkdown),
        job.plan matches JobPlan::Report { write_markdown, write_segments, .. } ==> (write_markdown
            ==> job.performed().contains(Effect::WriteMarkdown)) && (write_segments
            ==> job.performed().contains(Effect::WriteSegments)),
{
    let e = job.plan.effects();
    let p = job.performed();
    match job.plan {
        JobPlan::Stop { keep_audio } | JobPlan::Finalize { keep_audio } => {
            assert(job.done == 3);
            assert(p[1] == Effect::WriteSegments);
            assert(p[2] == Effect::WriteExports);
        },
        JobPlan::Recover { keep_audio } => {
            assert(job.done == 2);
            assert(p[0] == Effect::WriteSegments);
            assert(p[1] == Effect::WriteMarkdown);
        },
        JobPlan::Report { repair, write_markdown, write_segments, keep_audio } => {
            let a = effect_if(repair, Effect::SaveStopped);
            let b = effect_if(write_markdown, Effect::WriteMarkdown);
            assert(job.done == e.len() - 1);
            if write_markdown {
                assert(p[a.len() as int] == Effect::WriteMarkdown);
            }
            if write_segments {
                assert(p[(a.len() + b.len()) as int] == Effect::WriteSegments);
            }
        },
    }
}

/// A meeting that is being finished is saved as stopped last of all: once its
/// segments and exports are written, and its audio is deleted unless it is kept.
pub proof fn law_stopped_is_committed_last(job: Job)
    requires
        !(job.plan is Report),
        job.upcoming() == Some(Effect::SaveStopped),
    ensures
        job.done + 1 == job.plan.effects().len(),
        job.performed().contains(Effect::WriteSegments),
        job.performed().contains(Effect::WriteExports) || job.performed().contains(
            Effect::WriteMarkdown,
        ),
        job.plan.keeps_audio() || job.performed().contains(Effect::DeleteAudio),
        !job.performed().contains(Effect::SaveStopped),
{
    let p = job.performed();
    match job.plan {
        JobPlan::Stop { keep_audio } | JobPlan::Finalize { keep_audio } => {
            assert(p[1] == Effect::WriteSegments);
            assert(p[2] == Effect::WriteExports);
            if !keep_audio {
                assert(p[3] == Effect::DeleteAudio);
            }
        },
        JobPlan::Recover { keep_audio } => {
            assert(p[0] == Effect::WriteSegments);
            assert(p[1] == Effect::WriteMarkdown);
            if !keep_audio {
                assert(p[2] == Effect::DeleteAudio);
            }
        },
        JobPlan::Report { .. } => {},
    }
}

/// The audio of a meeting that keeps it is never deleted.
pub proof fn law_kept_audio_is_never_deleted(plan: JobPlan)
    requires
        plan.keeps_audio(),
    ensures
        !plan.effects().contains(Effect::DeleteAudio),
{
}

/// What a finalize finds.
#[derive(Debug)]
pub struct FinalizeFacts {
    /// The export, where it is valid, or what is wrong with it.
    pub export: Result<MeetingExport, ComlinkError>,
    /// Whether there is an export, or may be one.
    pub export_may_exist: bool,
    /// How many chunks of audio there are.
    pub chunk_count: Result<usize, ComlinkError>,
    pub markdown_present: bool,
    pub segments_present: bool,
}

/// What a finalize does.
#[derive(Debug)]
pub enum FinalizePlan {
    /// It ends with an error; the session stays as it is.
    Refuse(ComlinkError),
    /// It ends with an error that the session records.
    Fail(ComlinkError),
    /// It reports what the export holds, once the job is done; where there is an
    /// error, it ends with that then.
    Report { job: JobPlan, export: MeetingExport, ending: Option<ComlinkError> },
    /// It makes the session what its export says.
    Recover { job: JobPlan, export: MeetingExport },
    /// It transcribes the chunks.
    Transcribe { job: JobPlan },
}

/// Whether `p` is what a finalize does about a meeting that is to be transcribed.
pub open spec fn is_transcribing_plan(
    session: MeetingSessionState,
    facts: FinalizeFacts,
    p: FinalizePlan,
) -> bool {
    let keep_audio = session.retention.audio;
    match facts.chunk_count {
        Err(e) => p == FinalizePlan::Fail(e),
        Ok(count) => match facts.export {
            Ok(export) => if count == 0 || facts.markdown_present && facts.segments_present {
                p == (FinalizePlan::Recover { job: JobPlan::Recover { keep_audio }, export })
            } else {
                p == (FinalizePlan::Transcribe { job: JobPlan::Finalize { keep_audio } })
            },
            Err(e) => if count == 0 {
                p matches FinalizePlan::Fail(ComlinkError::AudioCaptureFailed(m)) && m@
                    == "meeting has no chunk files left to transcribe and no recoverable export; "@
                    + e.text()
            } else if facts.export_may_exist {
                p matches FinalizePlan::Fail(error) && is_invalid_export(session, e, error)
            } else {
                p == (FinalizePlan::Transcribe { job: JobPlan::Finalize { keep_audio } })
            },
        },
    }
}

/// Whether `p` is what a finalize does about a session.
pub open spec fn is_finalize_plan(
    id: Seq<char>,
    session: MeetingSessionState,
    facts: FinalizeFacts,
    p: FinalizePlan,
) -> bool {
    let keep_audio = session.retention.audio;
    match session.status {
        MeetingStatus::Recording => p matches FinalizePlan::Refuse(
            ComlinkError::MeetingNotTranscribing(name),
        ) && name@ == id,
        MeetingStatus::Stopped => match facts.export {
            Ok(export) => match facts.chunk_count {
                Err(e) => p == (FinalizePlan::Report {
                    job: JobPlan::Report {
                        repair: needs_repair(session, export),
                        write_markdown: false,
                        write_segments: false,
                        keep_audio: true,
                    },
                    export,
                    ending: Some(e),
                }),
                Ok(count) => p == (FinalizePlan::Report {
                    job: JobPlan::Report {
                        repair: needs_repair(session, export),
                        write_markdown: count > 0 && !keep_audio && !facts.markdown_present,
                        write_segments: count > 0 && !keep_audio && !facts.segments_present,
                        keep_audio,
                    },
                    export,
                    ending: None,
                }),
            },
            Err(e) => match facts.chunk_count {
                Err(listing) => p == FinalizePlan::Refuse(listing),
                Ok(count) => if count == 0 {
                    p == FinalizePlan::Refuse(e)
                } else if facts.export_may_exist {
                    p matches FinalizePlan::Refuse(error) && is_invalid_export(session, e, error)
                } else {
                    p == (FinalizePlan::Transcribe { job: JobPlan::Finalize { keep_audio } })
                },
            },
        },
        MeetingStatus::Transcribing | MeetingStatus::Failed => is_transcribing_plan(
            session,
            facts,
            p,
        ),
    }
}

/// What a finalize does about a stopped session.
fn plan_stopped(session: &MeetingSessionState, facts: FinalizeFacts) -> (r: FinalizePlan)
    requires
        session.status == MeetingStatus::Stopped,
    ensures
        forall|id: Seq<char>| #[trigger] is_finalize_plan(id, *session, facts, r),
{
    let keep_audio = session.retention.audio;
    match facts.export {
        Ok(export) => {
            let stopped_at_ms = time_stopped(session, &export);
            let same_duration = match session.duration_ms {
                Some(ms) => ms == export.session.duration_ms,
                None => false,
            };
            let same_stop = match (session.stopped_at_ms, stopped_at_ms) {
                (Some(a), Some(b)) => a == b,
                (None, None) => true,
                _ => false,
            };
            let repair = !(session.segment_count == export.session.segment_count && same_duration
                && same_stop);
            match facts.chunk_count {
                Err(e) => FinalizePlan::Report {
                    job: JobPlan::Report {
                        repair,
                        write_markdown: false,
                        write_segments: false,
                        keep_audio: true,
                    },
                    export,
                    ending: Some(e),
                },
                Ok(count) => FinalizePlan::Report {
                    job: JobPlan::Report {
                        repair,
                        write_markdown: count > 0 && !keep_audio && !facts.markdown_present,
                        write_segments: count > 0 && !keep_audio && !facts.segments_present,
                        keep_audio,
                    },
                    export,
                    ending: None,
                },
            }
        },
        Err(e) => match facts.chunk_count {
            Err(listing) => FinalizePlan::Refuse(listing),
            Ok(count) => if count == 0 {
                FinalizePlan::Refuse(e)
            } else {
                match invalid_export_error(session, &e, facts.export_may_exist) {
                    Some(invalid) => FinalizePlan::Refuse(invalid),
                    None => FinalizePlan::Transcribe { job: JobPlan::Finalize { keep_audio } },
                }
            },
        },
    }
}

/// What a finalize does about a session that is to be transcribed.
fn plan_transcribing(session: &MeetingSessionState, facts: FinalizeFacts) -> (r: FinalizePlan)
    ensures
        is_transcribing_plan(*session, facts, r),
{
    let keep_audio = session.retention.audio;
    let count = match facts.chunk_count {
        Ok(count) => count,
        Err(e) => return FinalizePlan::Fail(e),
    };
    match facts.export {
        Ok(export) => if count == 0 || facts.markdown_present && facts.segments_present {
            FinalizePlan::Recover { job: JobPlan::Recover { keep_audio }, export }
        } else {
            FinalizePlan::Transcribe { job: JobPlan::Finalize { keep_audio } }
        },
        Err(e) => {
            if count == 0 {
                return FinalizePlan::Fail(
                    ComlinkError::AudioCaptureFailed(
                        cat2(
                            "meeting has no chunk files left to transcribe and no recoverable export; ",
                            &e.message(),
                        ),
                    ),
                );
            }
            match invalid_export_error(session, &e, facts.export_may_exist) {
                Some(invalid) => FinalizePlan::Fail(invalid),
                None => FinalizePlan::Transcribe { job: JobPlan::Finalize { keep_audio } },
            }
        },
    }
}

/// What a finalize does. A session that is recording is refused. A stopped one with
/// a valid export is reported, without a second transcription; one without any
/// export is transcribed. An export that is there but not valid is never replaced.
pub fn plan_finalize(id: &str, session: &MeetingSessionState, facts: FinalizeFacts) -> (r:
    FinalizePlan)
    ensures
        is_finalize_plan(id@, *session, facts, r),
{
    match session.status {
        MeetingStatus::Recording => FinalizePlan::Refuse(
            ComlinkError::MeetingNotTranscribing(id.to_owned()),
        ),
        MeetingStatus::Stopped => plan_stopped(session, facts),
        MeetingStatus::Transcribing => plan_transcribing(session, facts),
        MeetingStatus::Failed => plan_transcribing(session, facts),
    }
}

/// An export that is there, or may be, and is not valid is never overwritten:
/// nothing is transcribed, recovered or reported, whatever the session's status.
pub proof fn law_invalid_export_is_never_overwritten(
    id: Seq<char>,
    session: MeetingSessionState,
    facts: FinalizeFacts,
    p: FinalizePlan,
)
    requires
        is_finalize_plan(id, session, facts, p),
        facts.export is Err,
        facts.export_may_exist,
    ensures
        p is Refuse || p is Fail,
{
}

/// A finalize of a session that was finished before reports the same export again:
/// it transcribes nothing and has nothing to repair, as what was exported of the
/// stopped session is valid and in line with it.
pub proof fn law_finalize_is_idempotent(
    before: MeetingSessionState,
    at: i64,
    duration_ms: u64,
    session: MeetingSessionState,
    s: Seq<MeetingSegment>,
    raw: Seq<char>,
    processed: TextProcessingResult,
    segmenting: MeetingSegmenting,
    level: Option<MeetingAudioLevel>,
    e: MeetingExport,
    id: Seq<char>,
    facts: FinalizeFacts,
    p: FinalizePlan,
)
    requires
        s.len() <= usize::MAX,
        session == stopped(before, at, duration_ms, s.len() as usize),
        is_export(session, s, raw, processed, segmenting, level, e),
        is_validated(session, Ok(e), facts.export),
        is_finalize_plan(id, session, facts, p),
    ensures
        p matches FinalizePlan::Report { job, export, .. } && export == e && (
        job matches JobPlan::Report { repair, .. } && !repair),
{
}

/// The error for audio that could not be deleted.
pub fn cleanup_error(session: &MeetingSessionState, error: &ComlinkError) -> (r: ComlinkError)
    ensures
        r matches ComlinkError::MeetingChunkCleanupFailed { id, reason } && id@
            == session.session_id@ && reason@ == "could not delete "@ + session.chunks_dir@ + ": "@
            + error.text(),
{
    ComlinkError::MeetingChunkCleanupFailed {
        id: session.session_id.clone(),
        reason: cat4("could not delete ", &session.chunks_dir, ": ", &error.message()),
    }
}

/// What the recognition of a session's chunks gives.
#[derive(Debug)]
pub struct PipelineOutput {
    pub chunks: Vec<MeetingChunk>,
    pub segments: Vec<MeetingSegment>,
    pub raw_text: String,
    pub processed: TextProcessingResult,
    pub segmenting: MeetingSegmenting,
    pub audio_level: Option<MeetingAudioLevel>,
    pub duration_ms: u64,
}

/// Where the audio of a chunk comes from.
pub fn chunk_source(session: &MeetingSessionState, chunk: &MeetingChunk) -> (r: SourceMetadata)
    ensures
        r.path@ == chunk.path@,
        r.normalized_sample_rate_hz == session.sample_rate_hz,
        r.normalized_channels == session.channels,
{
    SourceMetadata {
        path: chunk.path.clone(),
        normalized_sample_rate_hz: session.sample_rate_hz,
        normalized_channels: session.channels,
    }
}

/// Whether `r` is what was recognised in a chunk.
pub open spec fn is_chunk_transcript(c: MeetingChunk, t: Transcript, r: ChunkTranscript) -> bool {
    &&& r.chunk_index == c.index
    &&& r.chunk_path@ == c.path@
    &&& r.source_label == c.source_label
    &&& r.source_device@ == c.source_device@
    &&& r.chunk_start_ms == c.start_ms
    &&& r.chunk_duration_ms == c.duration_ms
    &&& r.transcript == t
}

/// Whether `r` is what was recognised in the first `n` chunks; those without any
/// text are left out.
pub open spec fn are_chunk_transcripts(
    chunks: Seq<MeetingChunk>,
    outcomes: Seq<Result<Transcript, ComlinkError>>,
    n: int,
    r: Seq<ChunkTranscript>,
) -> bool
    decreases n,
{
    if n <= 0 {
        r.len() == 0
    } else {
        match outcomes[n - 1] {
            Ok(t) => r.len() > 0 && is_chunk_transcript(chunks[n - 1], t, r.last())
                && are_chunk_transcripts(chunks, outcomes, n - 1, r.drop_last()),
            Err(_) => are_chunk_transcripts(chunks, outcomes, n - 1, r),
        }
    }
}

/// Whether the recognition of a chunk failed; a chunk without any text is no
/// failure.
pub open spec fn is_failure(outcome: Result<Transcript, ComlinkError>) -> bool {
    outcome matches Err(e) && e != ComlinkError::EmptyTranscript
}

/// Whether the recognition of a chunk failed, so that no other chunk is recognised.
pub fn recognition_failed(outcome: &Result<Transcript, ComlinkError>) -> (r: bool)
    ensures
        r == is_failure(*outcome),
{
    match outcome {
        Ok(_) => false,
        Err(ComlinkError::EmptyTranscript) => false,
        Err(_) => true,
    }
}

/// Whether every chunk was recognised, or all up to one whose recognition failed.
pub open spec fn are_outcomes(
    chunks: Seq<MeetingChunk>,
    outcomes: Seq<Result<Transcript, ComlinkError>>,
) -> bool {
    ||| outcomes.len() == chunks.len()
    ||| 0 < outcomes.len() < chunks.len() && is_failure(outcomes.last())
}

/// Whether outcome `i` is the first failure.
pub open spec fn is_first_failure(outcomes: Seq<Result<Transcript, ComlinkError>>, i: int) -> bool {
    &&& 0 <= i < outcomes.len()
    &&& is_failure(outcomes[i])
    &&& forall|j: int| 0 <= j < i ==> !is_failure(#[trigger] outcomes[j])
}

/// What was recognised in chunks, chunk by chunk, up to the first failure.
pub fn collect_chunk_transcripts(
    chunks: &[MeetingChunk],
    outcomes: Vec<Result<Transcript, ComlinkError>>,
) -> (r: Result<Vec<ChunkTranscript>, ComlinkError>)
    requires
        are_outcomes(chunks@, outcomes@),
    ensures
        match r {
            Ok(v) => outcomes@.len() == chunks@.len() && are_chunk_transcripts(
                chunks@,
                outcomes@,
                chunks@.len() as int,
                v@,
            ) && forall|j: int| 0 <= j < outcomes@.len() ==> !is_failure(#[trigger] outcomes@[j]),
            Err(e) => exists|i: int|
                #[trigger] is_first_failure(outcomes@, i) && outcomes@[i] == Err::<
                    Transcript,
                    ComlinkError,
                >(e),
        },
{
    let ghost all = outcomes@;
    let total: usize = chunks.len();
    let mut r: Vec<ChunkTranscript> = Vec::new();
    let mut i: usize = 0;
    for outcome in it: outcomes
        invariant
            it.seq() == all,
            i == it.index(),
            all.len() <= total,
            total == chunks@.len(),
            are_chunk_transcripts(chunks@, all, i as int, r@),
            forall|j: int| 0 <= j < i ==> !is_failure(#[trigger] all[j]),
    {
        assert(outcome == all[i as int]);
        let ghost before = r@;
        match outcome {
            Ok(transcript) => {
                let c = &chunks[i];
                r.push(
                    ChunkTranscript {
                        chunk_index: c.index,
                        chunk_path: c.path.clone(),
                        source_label: c.source_label,
                        source_device: c.source_device.clone(),
                        chunk_start_ms: c.start_ms,
                        chunk_duration_ms: c.duration_ms,
                        transcript,
                    },
                );
                assert(r@.drop_last() =~= before);
            },
            Err(ComlinkError::EmptyTranscript) => {},
            Err(e) => {
                assert(is_first_failure(all, i as int));
                return Err(e);
            },
        }
        i += 1;
    }
    Ok(r)
}

/// The text of what was recognised, as it is handed to the text processing.
#[derive(Debug)]
pub struct Stitched {
    pub segments: Vec<MeetingSegment>,
    pub segmenting: MeetingSegmenting,
    pub raw_text: String,
}

/// Puts what was recognised in chunks together.
pub fn stitch_chunks(transcripts: &[ChunkTranscript]) -> (r: Stitched)
    ensures
        are_segments(transcripts@, r.segments@),
        is_segmenting(any_timed(transcripts@), r.segmenting),
        r.raw_text@ == raw_text(r.segments@),
{
    let built = build_segments_from_chunk_transcripts(transcripts);
    let text = raw_text_from_segments(&built.segments);
    Stitched { segments: built.segments, segmenting: built.segmenting, raw_text: text }
}

/// What the recognition of a session's chunks gives, once its text is processed and
/// the level of its audio measured.
pub fn pipeline_output(
    chunks: Vec<MeetingChunk>,
    stitched: Stitched,
    processed: TextProcessingResult,
    audio_level: Option<MeetingAudioLevel>,
) -> (r: PipelineOutput)
    ensures
        r == (PipelineOutput {
            chunks,
            segments: stitched.segments,
            raw_text: stitched.raw_text,
            processed,
            segmenting: stitched.segmenting,
            audio_level,
            duration_ms: meeting_length(chunks@) as u64,
        }),
{
    let duration_ms = meeting_duration_ms(&chunks);
    PipelineOutput {
        chunks,
        segments: stitched.segments,
        raw_text: stitched.raw_text,
        processed,
        segmenting: stitched.segmenting,
        audio_level,
        duration_ms,
    }
}

/// What was recognised in a session, before its text is rewritten.
#[derive(Debug)]
pub struct Heard {
    pub chunks: Vec<MeetingChunk>,
    pub stitched: Stitched,
    /// How the text is processed, and what the language model is to be asked.
    pub plan: TextPlan,
}

/// Whether no recognition failed.
pub open spec fn none_failed(outcomes: Seq<Result<Transcript, ComlinkError>>) -> bool {
    forall|j: int| 0 <= j < outcomes.len() ==> !is_failure(#[trigger] outcomes[j])
}

/// Whether `h` is what was recognised in a session's chunks.
pub open spec fn is_heard(
    session: MeetingSessionState,
    config: Config,
    chunks: Vec<MeetingChunk>,
    outcomes: Seq<Result<Transcript, ComlinkError>>,
    h: Heard,
) -> bool {
    &&& h.chunks == chunks
    &&& exists|t: Seq<ChunkTranscript>|
        #[trigger] are_chunk_transcripts(chunks@, outcomes, chunks@.len() as int, t)
            && are_segments(t, h.stitched.segments@) && is_segmenting(
            any_timed(t),
            h.stitched.segmenting,
        )
    &&& h.stitched.raw_text@ == raw_text(h.stitched.segments@)
    &&& exists|m: ResolvedMode|
        #[trigger] is_mode(config, session.mode@, m) && is_plan(
            config,
            m,
            h.stitched.raw_text@,
            session.no_llm,
            h.plan,
        )
}

/// Puts together what was recognised in a session's chunks and processes its text as
/// far as that goes without the language model. There is no meeting without a chunk,
/// the first recognition that failed fails the session, and so does a mode that is
/// no longer there.
pub fn recognise_session(
    session: &MeetingSessionState,
    config: &Config,
    chunks: Vec<MeetingChunk>,
    outcomes: Vec<Result<Transcript, ComlinkError>>,
) -> (r: Result<Heard, ComlinkError>)
    requires
        are_outcomes(chunks@, outcomes@),
    ensures
        if chunks@.len() == 0 {
            r matches Err(e) && is_no_chunks_error(*session, e)
        } else if !none_failed(outcomes@) {
            r matches Err(e) && exists|i: int|
                #[trigger] is_first_failure(outcomes@, i) && outcomes@[i] == Err::<
                    Transcript,
                    ComlinkError,
                >(e)
        } else if !mode_exists(*config, session.mode@) {
            r matches Err(ComlinkError::ModeNotFound(name)) && name@ == session.mode@
        } else {
            r matches Ok(h) && is_heard(*session, *config, chunks, outcomes@, h)
        },
{
    if chunks.len() == 0 {
        return Err(no_meeting_chunks_error(session));
    }
    let transcripts = match collect_chunk_transcripts(&chunks, outcomes) {
        Ok(transcripts) => transcripts,
        Err(e) => return Err(e),
    };
    let stitched = stitch_chunks(&transcripts);
    match plan_text(&stitched.raw_text, &session.mode, config, session.no_llm) {
        Ok(plan) => Ok(Heard { chunks, stitched, plan }),
        Err(e) => Err(e),
    }
}

/// The transcription of a session, given what was recognised in it, the reply of the
/// language model where it was asked, and the level of its audio.
pub fn transcribe_session(
    heard: Heard,
    reply: Result<String, TransportError>,
    audio_level: Option<MeetingAudioLevel>,
) -> (r: PipelineOutput)
    ensures
        is_completed(heard.plan, reply, r.processed),
        r == (PipelineOutput {
            chunks: heard.chunks,
            segments: heard.stitched.segments,
            raw_text: heard.stitched.raw_text,
            processed: r.processed,
            segmenting: heard.stitched.segmenting,
            audio_level,
            duration_ms: meeting_length(heard.chunks@) as u64,
        }),
{
    let processed = complete_text(heard.plan, reply);
    pipeline_output(heard.chunks, heard.stitched, processed, audio_level)
}

/// The export of a session that was transcribed.
pub fn export_from_pipeline(session: &MeetingSessionState, pipeline: &PipelineOutput) -> (r:
    MeetingExport)
    ensures
        is_export(
            *session,
            pipeline.segments@,
            pipeline.raw_text@,
            pipeline.processed,
            pipeline.segmenting,
            pipeline.audio_level,
            r,
        ),
{
    let level = match &pipeline.audio_level {
        Some(level) => Some(level.clone()),
        None => None,
    };
    build_export(
        session,
        &pipeline.segments,
        &pipeline.raw_text,
        &pipeline.processed,
        pipeline.segmenting.clone(),
        level,
    )
}

/// Records how many chunks were transcribed, so that a crash after the export can
/// still tell.
pub fn record_progress(session: &mut MeetingSessionState, pipeline: &PipelineOutput)
    ensures
        *final(session) == (MeetingSessionState {
            chunks_processed: Some(pipeline.chunks@.len() as usize),
            ..*old(session)
        }),
{
    session.chunks_processed = Some(pipeline.chunks.len());
}

/// Stops a session that was transcribed, at the given time or when it stopped
/// before.
pub fn finish_transcribed(
    session: &mut MeetingSessionState,
    pipeline: &PipelineOutput,
    now_ms: i64,
)
    ensures
        *final(session) == stopped(
            *old(session),
            match old(session).stopped_at_ms {
                Some(ms) => ms,
                None => now_ms,
            },
            pipeline.duration_ms,
            pipeline.segments@.len() as usize,
        ),
{
    let at = match session.stopped_at_ms {
        Some(ms) => ms,
        None => now_ms,
    };
    session.mark_stopped(at, pipeline.duration_ms, pipeline.segments.len());
}

/// Stops a session as its export has it; how many chunks were transcribed is kept
/// where it is known.
pub fn finish_recovered(session: &mut MeetingSessionState, export: &MeetingExport, now_ms: i64) -> (r:
    usize)
    ensures
        r == match old(session).chunks_processed {
            Some(n) => n,
            None => 0,
        },
        *final(session) == (MeetingSessionState {
            chunks_processed: Some(r),
            ..stopped_as_exported(*old(session), *export, now_ms)
        }),
{
    let chunks_processed = match session.chunks_processed {
        Some(n) => n,
        None => 0,
    };
    let at = match time_stopped(session, export) {
        Some(ms) => ms,
        None => now_ms,
    };
    session.mark_stopped(at, export.session.duration_ms, export.session.segment_count);
    session.chunks_processed = Some(chunks_processed);
    chunks_processed
}

/// What a stop or a finalize reports.
#[derive(Debug)]
pub struct MeetStopStatus {
    pub schema_version: &'static str,
    pub session_id: String,
    pub status: &'static str,
    pub elapsed_ms: u64,
    pub duration_ms: u64,
    pub chunks_processed: usize,
    pub segment_count: usize,
    pub source: MeetingSourceMetadata,
    pub retention: MeetingRetentionPolicy,
    pub segmenting: MeetingSegmenting,
    pub artifacts: MeetingArtifacts,
    pub audio_level: Option<MeetingAudioLevel>,
    pub warnings: Vec<String>,
    pub inactivity_auto_stop: InactivityAutoStop,
}

/// What a stop or a finalize reports of an export.
pub fn stop_status_from_export(
    session: &MeetingSessionState,
    export: MeetingExport,
    chunks_processed: usize,
    now_ms: i64,
) -> (r: MeetStopStatus)
    ensures
        r.schema_version@ == MEETING_SCHEMA_VERSION@,
        r.session_id@ == session.session_id@,
        r.status@ == "stopped"@,
        r.elapsed_ms == elapsed(now_ms as int, session.started_at_ms as int),
        r.duration_ms == export.session.duration_ms,
        r.chunks_processed == chunks_processed,
        r.segment_count == export.session.segment_count,
        r.source == export.source,
        r.retention == export.retention,
        r.segmenting == export.segmenting,
        r.artifacts == export.artifacts,
        r.audio_level == export.audio_level,
        r.warnings == export.warnings,
        r.inactivity_auto_stop == session.inactivity_auto_stop,
{
    MeetStopStatus {
        schema_version: MEETING_SCHEMA_VERSION,
        session_id: session.session_id.clone(),
        status: "stopped",
        elapsed_ms: elapsed_since(session.started_at_ms, now_ms),
        duration_ms: export.session.duration_ms,
        chunks_processed,
        segment_count: export.session.segment_count,
        source: export.source,
        retention: export.retention,
        segmenting: export.segmenting,
        artifacts: export.artifacts,
        audio_level: export.audio_level,
        warnings: export.warnings,
        inactivity_auto_stop: session.inactivity_auto_stop.clone(),
    }
}

/// A session that is recovered from its export becomes the session that the
/// transcription behind the export would have committed.
pub proof fn law_recovery_agrees_with_transcription(
    before: MeetingSessionState,
    at: i64,
    pipeline: PipelineOutput,
    session: MeetingSessionState,
    e: MeetingExport,
    now_ms: i64,
)
    requires
        session == stopped(before, at, pipeline.duration_ms, pipeline.segments@.len() as usize),
        pipeline.segments@.len() <= usize::MAX,
        is_export(
            session,
            pipeline.segments@,
            pipeline.raw_text@,
            pipeline.processed,
            pipeline.segmenting,
            pipeline.audio_level,
            e,
        ),
    ensures
        stopped_as_exported(before, e, now_ms) == session,
{
}

/// What is recognised of a meeting is what was heard in each of its chunks that has any
/// text, in the sequence of the chunks, each with the times, the source and the path of its
/// chunk. `from` gives, for each transcript, the chunk that it was heard in.
pub proof fn law_every_chunk_is_heard_once(
    chunks: Seq<MeetingChunk>,
    outcomes: Seq<Result<Transcript, ComlinkError>>,
    n: int,
    r: Seq<ChunkTranscript>,
) -> (from: Seq<int>)
    requires
        are_chunk_transcripts(chunks, outcomes, n, r),
        0 <= n,
    ensures
        from.len() == r.len(),
        forall|j: int, k: int| 0 <= j < k < from.len() ==> #[trigger] from[j] < #[trigger] from[k],
        forall|k: int|
            #![trigger from[k]]
            0 <= k < r.len() ==> {
                let c = chunks[from[k]];
                &&& 0 <= from[k] < n
                &&& outcomes[from[k]] == Ok::<Transcript, ComlinkError>(r[k].transcript)
                &&& r[k].chunk_index == c.index
                &&& r[k].chunk_path@ == c.path@
                &&& r[k].source_label == c.source_label
                &&& r[k].source_device@ == c.source_device@
                &&& r[k].chunk_start_ms == c.start_ms
                &&& r[k].chunk_duration_ms == c.duration_ms
            },
        forall|i: int| 0 <= i < n && (#[trigger] outcomes[i]) is Ok ==> from.contains(i),
    decreases n,
{
    if n <= 0 {
        Seq::empty()
    } else if outcomes[n - 1] is Ok {
        let t = r.drop_last();
        let rest = law_every_chunk_is_heard_once(chunks, outcomes, n - 1, t);
        let from = rest.push(n - 1);
        assert forall|k: int|
            #![trigger from[k]]
            0 <= k < r.len() implies {
            let c = chunks[from[k]];
            &&& 0 <= from[k] < n
            &&& outcomes[from[k]] == Ok::<Transcript, ComlinkError>(r[k].transcript)
            &&& r[k].chunk_index == c.index
            &&& r[k].chunk_path@ == c.path@
            &&& r[k].source_label == c.source_label
            &&& r[k].source_device@ == c.source_device@
            &&& r[k].chunk_start_ms == c.start_ms
            &&& r[k].chunk_duration_ms == c.duration_ms
        } by {
            if k < t.len() {
                assert(from[k] == rest[k]);
                assert(r[k] == t[k]);
            }
        }
        assert forall|j: int, k: int| 0 <= j < k < from.len() implies #[trigger] from[j]
            < #[trigger] from[k] by {
            if k == t.len() {
                assert(rest[j] < n - 1);
            } else {
                assert(rest[j] < rest[k]);
            }
        }
        assert forall|i: int| 0 <= i < n && (#[trigger] outcomes[i]) is Ok implies from.contains(
            i,
        ) by {
            if i < n - 1 {
                let k = choose|k: int| 0 <= k < rest.len() && rest[k] == i;
                assert(from[k] == i);
            } else {
                assert(from[t.len() as int] == i);
            }
        }
        from
    } else {
        law_every_chunk_is_heard_once(chunks, outcomes, n - 1, r)
    }
}

/// Time that has passed is the difference of the two times.
pub proof fn law_time_passes(now: i64, started: i64)
    requires
        started <= now,
        now - started <= i64::MAX,
    ensures
        elapsed(now as int, started as int) == now - started,
{
}

/// A start makes a session that is recording from now on, in the mode, with the source,
/// model, retention and places it was given, and with chunks of the asked length, a second
/// at least.
pub proof fn law_start_makes_the_asked_session(
    request: StartRequest,
    source: MeetingSourceMetadata,
    model: Seq<char>,
    retention: MeetingRetentionPolicy,
    paths: NewMeetingPaths,
    now_ms: i64,
    s: MeetingSessionState,
)
    requires
        is_started_session(request, source, model, retention, paths, now_ms, s),
    ensures
        s.status == MeetingStatus::Recording,
        s.started_at_ms == now_ms,
        s.session_id == paths.session_id,
        s.mode == request.mode && s.no_llm == request.no_llm,
        s.device == request.device,
        s.source.mode == source.mode,
        s.source.streams@.len() == source.streams@.len(),
        forall|i: int|
            0 <= i < source.streams@.len() ==> (#[trigger] s.source.streams@[i]).label
                == source.streams@[i].label && s.source.streams@[i].device@
                == source.streams@[i].device@,
        s.model_path@ == model && s.model@ == model,
        s.retention == retention,
        s.chunks_dir == paths.chunks_dir && s.session_dir == paths.session_dir,
        s.json_export_path == paths.json_export_path,
        1 <= request.chunk_seconds <= 18_446_744_073_709_551 ==> s.chunk_duration_ms
            == request.chunk_seconds * 1000,
        request.chunk_seconds == 0 ==> s.chunk_duration_ms == 1000,
        s.error is None && s.stopped_at_ms is None && s.duration_ms is None,
{
}

/// A finalize keeps to what is there. It transcribes just where there is audio and no valid
/// export, or one that is not written out, and never while the meeting is being recorded.
/// Where there is no audio it recovers from a valid export, and fails without one. A
/// finished meeting with a valid export is reported from it. Audio is deleted just where
/// the session does not keep it.
pub proof fn law_finalize_goes_by_what_is_there(
    id: Seq<char>,
    session: MeetingSessionState,
    facts: FinalizeFacts,
    p: FinalizePlan,
)
    requires
        is_finalize_plan(id, session, facts, p),
    ensures
        session.status == MeetingStatus::Recording ==> p is Refuse,
        p is Transcribe ==> facts.chunk_count is Ok && facts.chunk_count->Ok_0 > 0 && (facts.export
            is Err && !facts.export_may_exist || facts.export is Ok && session.status
            != MeetingStatus::Stopped && !(facts.markdown_present && facts.segments_present)),
        session.status != MeetingStatus::Recording && facts.chunk_count is Ok
            && facts.chunk_count->Ok_0 > 0 && facts.export is Err && !facts.export_may_exist
            ==> p is Transcribe,
        session.status == MeetingStatus::Stopped && facts.export is Ok ==> (
        p matches FinalizePlan::Report { export, .. } && export == facts.export->Ok_0),
        (session.status == MeetingStatus::Transcribing || session.status == MeetingStatus::Failed)
            && facts.chunk_count == Ok::<usize, ComlinkError>(0) ==> match facts.export {
            Ok(e) => p matches FinalizePlan::Recover { export, .. } && export == e,
            Err(_) => p is Fail,
        },
        (session.status == MeetingStatus::Transcribing || session.status == MeetingStatus::Failed)
            && facts.chunk_count is Ok && facts.export is Ok && facts.markdown_present
            && facts.segments_present ==> p is Recover,
        p matches FinalizePlan::Transcribe { job } ==> job == (JobPlan::Finalize {
            keep_audio: session.retention.audio,
        }),
        p matches FinalizePlan::Recover { job, .. } ==> job == (JobPlan::Recover {
            keep_audio: session.retention.audio,
        }),
        p matches FinalizePlan::Report { job, .. } ==> (session.retention.audio
            ==> job.keeps_audio()),
{
}

/// What is done to finish a meeting: it is saved, its segments and exports are written, its
/// audio is deleted unless it is kept, and last it is saved as stopped.
pub proof fn law_jobs_do_their_work(plan: JobPlan)
    ensures
        plan is Stop || plan is Finalize ==> plan.effects().contains(Effect::WriteSegments)
            && plan.effects().contains(Effect::WriteExports) && plan.effects().last()
            == Effect::SaveStopped && plan.effects()[0] == Effect::SaveProgress,
        plan is Recover ==> plan.effects().contains(Effect::WriteSegments)
            && plan.effects().contains(Effect::WriteMarkdown) && plan.effects().last()
            == Effect::SaveStopped,
        plan.effects().contains(Effect::DeleteAudio) <==> !plan.keeps_audio(),
        plan matches JobPlan::Report { repair, .. } ==> (plan.effects().contains(
            Effect::SaveStopped,
        ) <==> repair),
        plan matches JobPlan::Stop { keep_audio } ==> plan.keeps_audio() == keep_audio,
        plan matches JobPlan::Finalize { keep_audio } ==> plan.keeps_audio() == keep_audio,
        plan matches JobPlan::Recover { keep_audio } ==> plan.keeps_audio() == keep_audio,
        plan matches JobPlan::Report { keep_audio, .. } ==> plan.keeps_audio() == keep_audio,
{
    let e = plan.effects();
    match plan {
        JobPlan::Stop { keep_audio } | JobPlan::Finalize { keep_audio } => {
            assert(e[1] == Effect::WriteSegments);
            assert(e[2] == Effect::WriteExports);
            if !keep_audio {
                assert(e[3] == Effect::DeleteAudio);
            }
        },
        JobPlan::Recover { keep_audio } => {
            assert(e[0] == Effect::WriteSegments);
            assert(e[1] == Effect::WriteMarkdown);
            if !keep_audio {
                assert(e[2] == Effect::DeleteAudio);
            }
        },
        JobPlan::Report { repair, write_markdown, write_segments, keep_audio } => {
            if repair {
                assert(e[0] == Effect::SaveStopped);
            }
            if !keep_audio {
                assert(e[e.len() - 1] == Effect::DeleteAudio);
            }
        },
    }
}

/// What a detached stop reports: the session, that it is being transcribed, how many chunks
/// there are and how long they last, and the process that transcribes them.
pub proof fn law_detached_stops_report(
    session: MeetingSessionState,
    pid: u32,
    chunks: Seq<MeetingChunk>,
    now_ms: i64,
    r: MeetDetachedStatus,
)
    requires
        is_detached_status(session, pid, chunks, now_ms, r),
    ensures
        r.session_id@ == session.session_id@,
        r.status@ == "transcribing"@,
        r.chunk_count == chunks.len(),
        r.finalizer_pid == pid,
        forall|i: int|
            0 <= i < chunks.len() ==> r.preliminary_duration_ms == u64::MAX || (
            #[trigger] chunks[i]).start_ms + chunks[i].duration_ms <= r.preliminary_duration_ms,
        session.started_at_ms <= now_ms && now_ms - session.started_at_ms <= i64::MAX
            ==> r.elapsed_ms == now_ms - session.started_at_ms,
{
    law_meeting_lasts_to_its_latest_end(chunks);
}

/// What is heard of a meeting is the speech of all of its chunks: its raw text says what the
/// segments say, and the mode of the session decides what becomes of it.
pub proof fn law_meetings_are_heard_whole(
    session: MeetingSessionState,
    config: Config,
    chunks: Vec<MeetingChunk>,
    outcomes: Seq<Result<Transcript, ComlinkError>>,
    h: Heard,
)
    requires
        is_heard(session, config, chunks, outcomes, h),
    ensures
        h.chunks == chunks,
        said(h.stitched.raw_text@) == all_said(segment_texts(h.stitched.segments@)),
        exists|m: ResolvedMode| #[trigger]
            is_mode(config, session.mode@, m) && h.plan.mode@ == m.name@
                && h.plan.deterministic_text@ == m.deterministic_mode.processed(
                h.stitched.raw_text@,
                config.vocabulary@,
                config.snippets@,
            ),
{
    law_raw_text_is_all_that_was_heard(h.stitched.segments@);
    let m = choose|m: ResolvedMode| #[trigger]
        is_mode(config, session.mode@, m) && is_plan(
            config,
            m,
            h.stitched.raw_text@,
            session.no_llm,
            h.plan,
        );
    assert(is_mode(config, session.mode@, m));
}

/// A stop that fails while it writes is a failed session, but for its last save; a finalize
/// that fails is one always; a finished meeting is one just where its audio could not be
/// deleted.
pub proof fn law_what_fails_a_session(plan: JobPlan, e: Effect)
    ensures
        plan is Stop ==> (plan.fails_session(e) <==> e != Effect::SaveStopped),
        plan is Finalize || plan is Recover ==> plan.fails_session(e),
        plan is Report ==> (plan.fails_session(e) <==> e == Effect::DeleteAudio),
{
}

/// A session that is recovered, or brought in line with its export, is stopped with the length
/// and the number of segments of the export, at the time that the export has, or else its own,
/// or else now.
pub proof fn law_recovered_sessions_follow_their_export(
    session: MeetingSessionState,
    e: MeetingExport,
    now_ms: i64,
)
    ensures
        ({
            let r = stopped_as_exported(session, e, now_ms);
            &&& r.status == MeetingStatus::Stopped
            &&& r.duration_ms == Some(e.session.duration_ms)
            &&& r.segment_count == e.session.segment_count
            &&& e.session.stopped_at_ms is Some ==> r.stopped_at_ms == e.session.stopped_at_ms
            &&& e.session.stopped_at_ms is None && session.stopped_at_ms is Some ==> r.stopped_at_ms
                == session.stopped_at_ms
            &&& e.session.stopped_at_ms is None && session.stopped_at_ms is None ==> r.stopped_at_ms
                == Some(now_ms)
            &&& r.session_id == session.session_id && r.retention == session.retention
        }),
        needs_repair(session, e) <==> session.segment_count != e.session.segment_count
            || session.duration_ms != Some(e.session.duration_ms) || (e.session.stopped_at_ms is Some
            && session.stopped_at_ms != e.session.stopped_at_ms),
{
}

/// The programs of a start are those it is given; else a selected model is needed, and then
/// they are those that were found.
pub proof fn law_programs_of_a_start(
    config: Config,
    given: Option<RuntimeDeps>,
    found: Result<RuntimeDeps, ComlinkError>,
)
    ensures
        given matches Some(x) ==> start_runtime(config, given, found) == Ok::<
            RuntimeDeps,
            ComlinkError,
        >(x),
        given is None && model_path(config) is None ==> start_runtime(config, given, found) == Err::<
            RuntimeDeps,
            ComlinkError,
        >(ComlinkError::ModelMissing),
        given is None && model_path(config) is Some ==> start_runtime(config, given, found) == found,
{
}

/// A prepared start asks for what it was told to, with the microphone that was found, and
/// notes that one where nobody chose it.
pub proof fn law_prepared_starts_ask_for_what_was_told(
    options: StartOptions,
    runtime: RuntimeDeps,
    device: ResolvedRecordDevice,
    source: MeetSourceMode,
    p: PreparedStart,
)
    requires
        is_prepared_start(options, runtime, device, source, p),
    ensures
        p.request.mode == options.mode && p.request.source == source && p.request.system_device
            == options.system_device && p.request.chunk_seconds == options.chunk_seconds
            && p.request.no_llm == options.no_llm,
        p.request.device@ == device.avfoundation_input@,
        p.runtime == runtime,
        p.device_note is Some <==> device.source == DeviceSource::SystemDefault,
        p.device_note matches Some(note) ==> note.avfoundation_input@ == device.avfoundation_input@,
{
}

} // verus!
