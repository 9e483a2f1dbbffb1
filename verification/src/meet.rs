//! Meetings: their sessions and what changes them, the segments and the export of
//! a transcript, and the layout of the store.
use vstd::prelude::*;

use crate::config::RetentionConfig;
use crate::paths::{join_path, joined, path_with_name, with_name};
use crate::record::{ProcessIdentity, SegmentedCaptureIdentity};
use crate::strings::{cat3, join, lemma_texts_push, opt_text, str_eq, str_join, texts};

verus! {

/// The layout of meeting records and exports.
pub const MEETING_SCHEMA_VERSION: &'static str = "comlink.meeting.v1";

/// What a meeting records.
#[derive(Debug, Clone, Copy, PartialEq, Eq, Structural)]
pub enum MeetSourceMode {
    MicOnly,
    SystemOnly,
    MicPlusSystem,
}

impl MeetSourceMode {
    /// The name of the mode.
    pub open spec fn name(self) -> Seq<char> {
        match self {
            MeetSourceMode::MicOnly => "mic-only"@,
            MeetSourceMode::SystemOnly => "system-only"@,
            MeetSourceMode::MicPlusSystem => "mic-plus-system"@,
        }
    }

    /// The mode with a name.
    pub open spec fn named(name: Seq<char>) -> Option<MeetSourceMode> {
        if name == "mic-only"@ {
            Some(MeetSourceMode::MicOnly)
        } else if name == "system-only"@ {
            Some(MeetSourceMode::SystemOnly)
        } else if name == "mic-plus-system"@ {
            Some(MeetSourceMode::MicPlusSystem)
        } else {
            None
        }
    }

    /// The name of the mode.
    pub fn as_str(self) -> (r: &'static str)
        ensures
            r@ == self.name(),
    {
        match self {
            MeetSourceMode::MicOnly => "mic-only",
            MeetSourceMode::SystemOnly => "system-only",
            MeetSourceMode::MicPlusSystem => "mic-plus-system",
        }
    }

    /// The mode with a name.
    pub fn parse(value: &str) -> (r: Option<MeetSourceMode>)
        ensures
            r == MeetSourceMode::named(value@),
    {
        if str_eq(value, "mic-only") {
            Some(MeetSourceMode::MicOnly)
        } else if str_eq(value, "system-only") {
            Some(MeetSourceMode::SystemOnly)
        } else if str_eq(value, "mic-plus-system") {
            Some(MeetSourceMode::MicPlusSystem)
        } else {
            None
        }
    }
}

/// The name of a mode is read back as that mode.
pub proof fn law_source_mode_round_trip(m: MeetSourceMode)
    ensures
        MeetSourceMode::named(m.name()) == Some(m),
{
    reveal_strlit("mic-only");
    reveal_strlit("system-only");
    reveal_strlit("mic-plus-system");
    assert("mic-only"@.len() == 8);
    assert("system-only"@.len() == 11);
    assert("mic-plus-system"@.len() == 15);
}

/// Which stream a sound came from.
#[derive(Debug, Clone, Copy, PartialEq, Eq, Structural)]
pub enum MeetingSourceLabel {
    UserMic,
    SystemAudio,
    Mixed,
}

impl MeetingSourceLabel {
    /// The name of the label.
    pub open spec fn name(self) -> Seq<char> {
        match self {
            MeetingSourceLabel::UserMic => "user_mic"@,
            MeetingSourceLabel::SystemAudio => "system_audio"@,
            MeetingSourceLabel::Mixed => "mixed"@,
        }
    }

    /// The name of the label.
    pub fn as_str(self) -> (r: &'static str)
        ensures
            r@ == self.name(),
    {
        match self {
            MeetingSourceLabel::UserMic => "user_mic",
            MeetingSourceLabel::SystemAudio => "system_audio",
            MeetingSourceLabel::Mixed => "mixed",
        }
    }
}

/// A stream that a meeting records.
#[derive(Debug, Clone, PartialEq, Eq)]
pub struct MeetingSourceStream {
    pub label: MeetingSourceLabel,
    pub device: String,
    pub chunks_dir: Option<String>,
    pub recorder_stderr_path: Option<String>,
    pub recorder_pid: Option<u32>,
    pub recorder_identity: Option<SegmentedCaptureIdentity>,
}

/// A stream that is not recorded yet.
pub fn new_stream(label: MeetingSourceLabel, device: String) -> (r: MeetingSourceStream)
    ensures
        is_bare_stream(r, label, device@),
{
    MeetingSourceStream {
        label,
        device,
        chunks_dir: None,
        recorder_stderr_path: None,
        recorder_pid: None,
        recorder_identity: None,
    }
}

/// Whether a stream has just a label and a device.
pub open spec fn is_bare_stream(
    s: MeetingSourceStream,
    label: MeetingSourceLabel,
    device: Seq<char>,
) -> bool {
    &&& s.label == label
    &&& s.device@ == device
    &&& s.chunks_dir is None
    &&& s.recorder_stderr_path is None
    &&& s.recorder_pid is None
    &&& s.recorder_identity is None
}

/// The streams that a meeting records.
#[derive(Debug, Clone, PartialEq, Eq)]
pub struct MeetingSourceMetadata {
    pub mode: MeetSourceMode,
    pub streams: Vec<MeetingSourceStream>,
}

/// The device as it is shown: its name, or a placeholder where metadata is not
/// kept.
pub open spec fn shown(text: Seq<char>, retain: bool) -> Seq<char> {
    if retain {
        text
    } else {
        "<redacted>"@
    }
}

/// Whether `r` are streams as they are exported: labels, and devices as they are
/// shown; never a path or a process.
pub open spec fn are_exported(
    s: Seq<MeetingSourceStream>,
    retain: bool,
    r: Seq<MeetingSourceStream>,
) -> bool {
    r.len() == s.len() && forall|i: int|
        0 <= i < s.len() ==> is_bare_stream(#[trigger] r[i], s[i].label, shown(s[i].device@, retain))
}

/// A stream in words.
pub open spec fn stream_text(s: MeetingSourceStream) -> Seq<char> {
    s.label.name() + " device "@ + s.device@
}

/// The streams in words.
pub open spec fn stream_texts(s: Seq<MeetingSourceStream>) -> Seq<Seq<char>> {
    Seq::new(s.len(), |i: int| stream_text(s[i]))
}

/// The streams in one line.
pub open spec fn streams_summary(s: Seq<MeetingSourceStream>) -> Seq<char> {
    join(stream_texts(s), "; "@)
}

/// The streams as they are exported.
fn export_streams(streams: &Vec<MeetingSourceStream>, retain: bool) -> (r: Vec<MeetingSourceStream>)
    ensures
        are_exported(streams@, retain, r@),
{
    let mut r: Vec<MeetingSourceStream> = Vec::new();
    let mut i: usize = 0;
    while i < streams.len()
        invariant
            i <= streams@.len(),
            r@.len() == i,
            forall|j: int|
                0 <= j < i ==> is_bare_stream(
                    #[trigger] r@[j],
                    streams@[j].label,
                    shown(streams@[j].device@, retain),
                ),
        decreases streams@.len() - i,
    {
        let device = if retain {
            streams[i].device.clone()
        } else {
            "<redacted>".to_owned()
        };
        r.push(new_stream(streams[i].label, device));
        i += 1;
    }
    r
}

impl MeetingSourceMetadata {
    /// The streams of a mode.
    pub fn new(mode: MeetSourceMode, streams: Vec<MeetingSourceStream>) -> (r: Self)
        ensures
            r == (MeetingSourceMetadata { mode, streams }),
    {
        MeetingSourceMetadata { mode, streams }
    }

    /// The streams without devices, paths and processes.
    pub fn redacted(&self) -> (r: Self)
        ensures
            r.mode == self.mode,
            are_exported(self.streams@, false, r.streams@),
    {
        MeetingSourceMetadata { mode: self.mode, streams: export_streams(&self.streams, false) }
    }

    /// The streams as they are exported.
    pub fn export_metadata(&self, retain_metadata: bool) -> (r: Self)
        ensures
            r.mode == self.mode,
            are_exported(self.streams@, retain_metadata, r.streams@),
    {
        MeetingSourceMetadata {
            mode: self.mode,
            streams: export_streams(&self.streams, retain_metadata),
        }
    }

    /// The streams in one line.
    pub fn summary(&self) -> (r: String)
        ensures
            r@ == streams_summary(self.streams@),
    {
        let mut parts: Vec<String> = Vec::new();
        let mut i: usize = 0;
        while i < self.streams.len()
            invariant
                i <= self.streams@.len(),
                texts(parts@) =~= stream_texts(self.streams@).take(i as int),
            decreases self.streams@.len() - i,
        {
            broadcast use lemma_texts_push;

            let s = &self.streams[i];
            parts.push(cat3(s.label.as_str(), " device ", &s.device));
            assert(texts(parts@) =~= stream_texts(self.streams@).take(i + 1));
            i += 1;
        }
        assert(texts(parts@) =~= stream_texts(self.streams@));
        str_join(&parts, "; ")
    }

    /// The streams with the paths of a session. A single microphone stream uses
    /// the session's own directory; otherwise each stream has one of its own,
    /// named by its label.
    pub fn with_session_paths(
        self,
        chunks_dir: &str,
        recorder_stderr_path: &str,
        use_legacy_single_stream_paths: bool,
    ) -> (r: Self)
        ensures
            r.mode == self.mode,
            have_session_paths(
                self.streams@,
                chunks_dir@,
                recorder_stderr_path@,
                use_legacy_single_stream_paths && self.streams@.len() <= 1,
                r.streams@,
            ),
    {
        let single = use_legacy_single_stream_paths && self.streams.len() <= 1;
        let ghost all = self.streams@;
        let mut streams: Vec<MeetingSourceStream> = Vec::new();
        for stream in it: self.streams
            invariant
                it.seq() == all,
                streams@.len() == it.index(),
                forall|j: int|
                    0 <= j < it.index() ==> has_session_paths(
                        all[j],
                        chunks_dir@,
                        recorder_stderr_path@,
                        single,
                        #[trigger] streams@[j],
                    ),
        {
            let (dir, stderr) = if single {
                (chunks_dir.to_owned(), recorder_stderr_path.to_owned())
            } else {
                let label = stream.label.as_str();
                (
                    join_path(chunks_dir, label),
                    path_with_name(recorder_stderr_path, &cat3("capture-", label, ".stderr")),
                )
            };
            streams.push(
                MeetingSourceStream {
                    label: stream.label,
                    device: stream.device,
                    chunks_dir: Some(dir),
                    recorder_stderr_path: Some(stderr),
                    recorder_pid: stream.recorder_pid,
                    recorder_identity: stream.recorder_identity,
                },
            );
        }
        MeetingSourceMetadata { mode: self.mode, streams }
    }
}

/// Whether `r` is the stream `s` with the paths of a session.
pub open spec fn has_session_paths(
    s: MeetingSourceStream,
    chunks_dir: Seq<char>,
    stderr: Seq<char>,
    single: bool,
    r: MeetingSourceStream,
) -> bool {
    &&& r == (MeetingSourceStream {
        chunks_dir: r.chunks_dir,
        recorder_stderr_path: r.recorder_stderr_path,
        ..s
    })
    &&& opt_text(r.chunks_dir) == Some(
        if single {
            chunks_dir
        } else {
            joined(chunks_dir, s.label.name())
        },
    )
    &&& opt_text(r.recorder_stderr_path) == Some(
        if single {
            stderr
        } else {
            with_name(stderr, "capture-"@ + s.label.name() + ".stderr"@)
        },
    )
}

/// Whether `r` are the streams `s` with the paths of a session.
pub open spec fn have_session_paths(
    s: Seq<MeetingSourceStream>,
    chunks_dir: Seq<char>,
    stderr: Seq<char>,
    single: bool,
    r: Seq<MeetingSourceStream>,
) -> bool {
    r.len() == s.len() && forall|i: int|
        0 <= i < s.len() ==> has_session_paths(s[i], chunks_dir, stderr, single, #[trigger] r[i])
}

impl Default for MeetingSourceMetadata {
    fn default() -> (r: Self)
        ensures
            r.mode == MeetSourceMode::MicOnly,
            r.streams@.len() == 1,
            is_bare_stream(r.streams@[0], MeetingSourceLabel::UserMic, ":0"@),
    {
        let mut streams: Vec<MeetingSourceStream> = Vec::new();
        streams.push(new_stream(MeetingSourceLabel::UserMic, ":0".to_owned()));
        MeetingSourceMetadata { mode: MeetSourceMode::MicOnly, streams }
    }
}

/// How far a meeting has come.
#[derive(Debug, Clone, Copy, PartialEq, Eq, Structural)]
pub enum MeetingStatus {
    Recording,
    Stopped,
    /// The recorders are stopped and a detached finalizer owns transcription.
    Transcribing,
    /// The finalizer failed; the error says why, and it can be run again.
    Failed,
}

impl MeetingStatus {
    /// The name of the status.
    pub open spec fn name(self) -> Seq<char> {
        match self {
            MeetingStatus::Recording => "recording"@,
            MeetingStatus::Stopped => "stopped"@,
            MeetingStatus::Transcribing => "transcribing"@,
            MeetingStatus::Failed => "failed"@,
        }
    }

    /// The status with a name.
    pub open spec fn named(name: Seq<char>) -> Option<MeetingStatus> {
        if name == "recording"@ {
            Some(MeetingStatus::Recording)
        } else if name == "stopped"@ {
            Some(MeetingStatus::Stopped)
        } else if name == "transcribing"@ {
            Some(MeetingStatus::Transcribing)
        } else if name == "failed"@ {
            Some(MeetingStatus::Failed)
        } else {
            None
        }
    }

    /// The name of the status.
    pub fn as_str(self) -> (r: &'static str)
        ensures
            r@ == self.name(),
    {
        match self {
            MeetingStatus::Recording => "recording",
            MeetingStatus::Stopped => "stopped",
            MeetingStatus::Transcribing => "transcribing",
            MeetingStatus::Failed => "failed",
        }
    }

    /// The status with a name, as a stored session spells it.
    pub fn parse(value: &str) -> (r: Option<MeetingStatus>)
        ensures
            r == MeetingStatus::named(value@),
    {
        if str_eq(value, "recording") {
            Some(MeetingStatus::Recording)
        } else if str_eq(value, "stopped") {
            Some(MeetingStatus::Stopped)
        } else if str_eq(value, "transcribing") {
            Some(MeetingStatus::Transcribing)
        } else if str_eq(value, "failed") {
            Some(MeetingStatus::Failed)
        } else {
            None
        }
    }
}

/// The name of a status is read back as that status.
pub proof fn law_status_round_trip(s: MeetingStatus)
    ensures
        MeetingStatus::named(s.name()) == Some(s),
{
    reveal_strlit("recording");
    reveal_strlit("stopped");
    reveal_strlit("transcribing");
    reveal_strlit("failed");
    assert("recording"@.len() == 9);
    assert("stopped"@.len() == 7);
    assert("transcribing"@.len() == 12);
    assert("failed"@.len() == 6);
}

/// What is kept of a meeting once it is over.
#[derive(Debug, PartialEq, Eq, Structural)]
pub struct MeetingRetentionPolicy {
    pub metadata: bool,
    pub transcripts: bool,
    pub audio: bool,
}

impl Clone for MeetingRetentionPolicy {
    fn clone(&self) -> (r: Self)
        ensures
            r == *self,
    {
        MeetingRetentionPolicy {
            metadata: self.metadata,
            transcripts: self.transcripts,
            audio: self.audio,
        }
    }
}

impl MeetingRetentionPolicy {
    /// The policy that the configuration sets.
    pub fn from_config(retention: &RetentionConfig) -> (r: Self)
        ensures
            r == (MeetingRetentionPolicy {
                metadata: retention.metadata,
                transcripts: retention.transcripts,
                audio: retention.audio,
            }),
    {
        MeetingRetentionPolicy {
            metadata: retention.metadata,
            transcripts: retention.transcripts,
            audio: retention.audio,
        }
    }
}

/// Whether a meeting stops by itself when nobody speaks.
#[derive(Debug, PartialEq, Eq)]
pub struct InactivityAutoStop {
    pub enabled: bool,
    pub reason: String,
}

impl Clone for InactivityAutoStop {
    fn clone(&self) -> (r: Self)
        ensures
            r == *self,
    {
        InactivityAutoStop { enabled: self.enabled, reason: self.reason.clone() }
    }
}

impl InactivityAutoStop {
    /// Whether it does not, for the reason that is given: the capture has no reliable
    /// signal of silence.
    pub open spec fn is_disabled(self) -> bool {
        &&& !self.enabled
        &&& self.reason@
            == "not enabled in Phase 7; the current capture adapter has no reliable realtime silence signal"@
    }

    /// It does not, as the capture has no reliable signal of silence.
    pub fn disabled_known_limitation() -> (r: Self)
        ensures
            r.is_disabled(),
    {
        InactivityAutoStop {
            enabled: false,
            reason: "not enabled in Phase 7; the current capture adapter has no reliable realtime silence signal".to_owned(),
        }
    }
}

/// Everything that is stored of a meeting.
#[derive(Debug, Clone)]
pub struct MeetingSessionState {
    pub schema_version: String,
    pub session_id: String,
    pub status: MeetingStatus,
    pub started_at_ms: i64,
    pub stopped_at_ms: Option<i64>,
    pub duration_ms: Option<u64>,
    pub mode: String,
    pub no_llm: bool,
    pub recorder_pid: Option<u32>,
    pub recorder_identity: Option<SegmentedCaptureIdentity>,
    pub device: String,
    pub source: MeetingSourceMetadata,
    pub chunk_duration_ms: u64,
    pub sample_rate_hz: u32,
    pub channels: u16,
    pub engine: String,
    pub model: String,
    pub model_path: String,
    pub retention: MeetingRetentionPolicy,
    pub inactivity_auto_stop: InactivityAutoStop,
    pub session_dir: String,
    pub chunks_dir: String,
    pub recorder_stderr_path: String,
    pub segments_jsonl_path: String,
    pub json_export_path: String,
    pub markdown_export_path: String,
    pub segment_count: usize,
    /// The detached finalizer, while one owns the session.
    pub finalizer: Option<ProcessIdentity>,
    pub transcribing_started_at_ms: Option<i64>,
    /// The error of the last failed finalize: its text only, never a transcript.
    pub error: Option<String>,
    pub chunks_processed: Option<usize>,
}

/// The session once it is stopped: no recorder, finalizer or error is left.
pub open spec fn stopped(
    s: MeetingSessionState,
    stopped_at_ms: i64,
    duration_ms: u64,
    segment_count: usize,
) -> MeetingSessionState {
    MeetingSessionState {
        status: MeetingStatus::Stopped,
        stopped_at_ms: Some(stopped_at_ms),
        duration_ms: Some(duration_ms),
        recorder_pid: None,
        recorder_identity: None,
        segment_count,
        finalizer: None,
        error: None,
        ..s
    }
}

/// The session once transcription is handed to a finalizer: no recorder, and no
/// finalizer or error of an earlier attempt, is left.
pub open spec fn transcribing(
    s: MeetingSessionState,
    stopped_at_ms: i64,
    duration_ms: u64,
    now_ms: i64,
) -> MeetingSessionState {
    MeetingSessionState {
        status: MeetingStatus::Transcribing,
        stopped_at_ms: Some(stopped_at_ms),
        duration_ms: Some(duration_ms),
        recorder_pid: None,
        recorder_identity: None,
        transcribing_started_at_ms: Some(now_ms),
        error: None,
        finalizer: None,
        ..s
    }
}

/// The session once its finalize has failed: the error is kept, no recorder or
/// finalizer is left.
pub open spec fn failed(s: MeetingSessionState, error: String) -> MeetingSessionState {
    MeetingSessionState {
        status: MeetingStatus::Failed,
        error: Some(error),
        finalizer: None,
        recorder_pid: None,
        recorder_identity: None,
        ..s
    }
}

impl MeetingSessionState {
    /// The meeting is over.
    pub fn mark_stopped(&mut self, stopped_at_ms: i64, duration_ms: u64, segment_count: usize)
        ensures
            *final(self) == stopped(*old(self), stopped_at_ms, duration_ms, segment_count),
    {
        self.status = MeetingStatus::Stopped;
        self.stopped_at_ms = Some(stopped_at_ms);
        self.duration_ms = Some(duration_ms);
        self.recorder_pid = None;
        self.recorder_identity = None;
        self.segment_count = segment_count;
        self.finalizer = None;
        self.error = None;
    }

    /// The recorders are stopped and transcription is handed to a finalizer.
    pub fn mark_transcribing(
        &mut self,
        stopped_at_ms: i64,
        preliminary_duration_ms: u64,
        now_ms: i64,
    )
        ensures
            *final(self) == transcribing(
                *old(self),
                stopped_at_ms,
                preliminary_duration_ms,
                now_ms,
            ),
    {
        self.status = MeetingStatus::Transcribing;
        self.stopped_at_ms = Some(stopped_at_ms);
        self.duration_ms = Some(preliminary_duration_ms);
        self.recorder_pid = None;
        self.recorder_identity = None;
        self.transcribing_started_at_ms = Some(now_ms);
        self.error = None;
        self.finalizer = None;
    }

    /// The finalize has failed.
    pub fn mark_failed(&mut self, error: String)
        ensures
            *final(self) == failed(*old(self), error),
    {
        self.status = MeetingStatus::Failed;
        self.error = Some(error);
        self.finalizer = None;
        self.recorder_pid = None;
        self.recorder_identity = None;
    }
}

/// Each change of state sets what it is told and leaves alone what the session is: its
/// name, its start, its mode, source, model, retention and places.
pub proof fn law_transitions_keep_the_session(
    s: MeetingSessionState,
    at: i64,
    duration_ms: u64,
    count: usize,
    now: i64,
    error: String,
    r: MeetingSessionState,
)
    requires
        r == stopped(s, at, duration_ms, count) || r == transcribing(s, at, duration_ms, now) || r
            == failed(s, error),
    ensures
        r == stopped(s, at, duration_ms, count) ==> r.status == MeetingStatus::Stopped
            && r.stopped_at_ms == Some(at) && r.duration_ms == Some(duration_ms) && r.segment_count
            == count,
        r == transcribing(s, at, duration_ms, now) ==> r.status == MeetingStatus::Transcribing
            && r.stopped_at_ms == Some(at) && r.duration_ms == Some(duration_ms)
            && r.transcribing_started_at_ms == Some(now),
        r == failed(s, error) ==> r.status == MeetingStatus::Failed && r.stopped_at_ms
            == s.stopped_at_ms && r.duration_ms == s.duration_ms,
        r.session_id == s.session_id,
        r.started_at_ms == s.started_at_ms,
        r.mode == s.mode && r.no_llm == s.no_llm,
        r.device == s.device && r.source == s.source,
        r.model == s.model && r.model_path == s.model_path && r.engine == s.engine,
        r.chunk_duration_ms == s.chunk_duration_ms,
        r.retention == s.retention,
        r.session_dir == s.session_dir && r.chunks_dir == s.chunks_dir,
        r.json_export_path == s.json_export_path && r.markdown_export_path == s.markdown_export_path
            && r.segments_jsonl_path == s.segments_jsonl_path,
{
}

/// A session keeps no trace of an attempt that is over: an error stands just in a
/// failed one, and none of the states after recording names a recorder or an
/// earlier finalizer.
pub proof fn law_transitions_clear_stale_fields(
    s: MeetingSessionState,
    at: i64,
    duration_ms: u64,
    count: usize,
    now: i64,
    error: String,
)
    ensures
        stopped(s, at, duration_ms, count).error is None,
        transcribing(s, at, duration_ms, now).error is None,
        failed(s, error).error == Some(error),
        stopped(s, at, duration_ms, count).finalizer is None,
        transcribing(s, at, duration_ms, now).finalizer is None,
        failed(s, error).finalizer is None,
        stopped(s, at, duration_ms, count).recorder_pid is None,
        transcribing(s, at, duration_ms, now).recorder_pid is None,
        failed(s, error).recorder_pid is None,
        stopped(s, at, duration_ms, count).recorder_identity is None,
        transcribing(s, at, duration_ms, now).recorder_identity is None,
        failed(s, error).recorder_identity is None,
        stopped(failed(s, error), at, duration_ms, count) == stopped(s, at, duration_ms, count),
{
}

/// What a new session starts from.
#[derive(Debug, Clone)]
pub struct NewMeetingSession {
    pub session_id: String,
    pub mode: String,
    pub no_llm: bool,
    pub device: String,
    pub source: MeetingSourceMetadata,
    pub chunk_duration_ms: u64,
    pub model: String,
    pub model_path: String,
    pub retention: MeetingRetentionPolicy,
    pub session_dir: String,
    pub chunks_dir: String,
    pub recorder_stderr_path: String,
    pub segments_jsonl_path: String,
    pub json_export_path: String,
    pub markdown_export_path: String,
}

/// Whether `s` is the session that starts from `o` at a time.
pub open spec fn is_new_session(o: NewMeetingSession, now_ms: i64, s: MeetingSessionState) -> bool {
    &&& s.schema_version@ == MEETING_SCHEMA_VERSION@
    &&& s.session_id == o.session_id
    &&& s.status == MeetingStatus::Recording
    &&& s.started_at_ms == now_ms
    &&& s.stopped_at_ms is None
    &&& s.duration_ms is None
    &&& s.mode == o.mode
    &&& s.no_llm == o.no_llm
    &&& s.recorder_pid is None
    &&& s.recorder_identity is None
    &&& s.device == o.device
    &&& s.source == o.source
    &&& s.chunk_duration_ms == o.chunk_duration_ms
    &&& s.sample_rate_hz == 16_000
    &&& s.channels == 1
    &&& s.engine@ == "whisper.cpp"@
    &&& s.model == o.model
    &&& s.model_path == o.model_path
    &&& s.retention == o.retention
    &&& s.inactivity_auto_stop.is_disabled()
    &&& s.session_dir == o.session_dir
    &&& s.chunks_dir == o.chunks_dir
    &&& s.recorder_stderr_path == o.recorder_stderr_path
    &&& s.segments_jsonl_path == o.segments_jsonl_path
    &&& s.json_export_path == o.json_export_path
    &&& s.markdown_export_path == o.markdown_export_path
    &&& s.segment_count == 0
    &&& s.finalizer is None
    &&& s.transcribing_started_at_ms is None
    &&& s.error is None
    &&& s.chunks_processed is None
}

/// The session that starts now.
pub fn new_recording_session(options: NewMeetingSession, now_ms: i64) -> (r: MeetingSessionState)
    ensures
        is_new_session(options, now_ms, r),
{
    MeetingSessionState {
        schema_version: MEETING_SCHEMA_VERSION.to_owned(),
        session_id: options.session_id,
        status: MeetingStatus::Recording,
        started_at_ms: now_ms,
        stopped_at_ms: None,
        duration_ms: None,
        mode: options.mode,
        no_llm: options.no_llm,
        recorder_pid: None,
        recorder_identity: None,
        device: options.device,
        source: options.source,
        chunk_duration_ms: options.chunk_duration_ms,
        sample_rate_hz: 16_000,
        channels: 1,
        engine: "whisper.cpp".to_owned(),
        model: options.model,
        model_path: options.model_path,
        retention: options.retention,
        inactivity_auto_stop: InactivityAutoStop::disabled_known_limitation(),
        session_dir: options.session_dir,
        chunks_dir: options.chunks_dir,
        recorder_stderr_path: options.recorder_stderr_path,
        segments_jsonl_path: options.segments_jsonl_path,
        json_export_path: options.json_export_path,
        markdown_export_path: options.markdown_export_path,
        segment_count: 0,
        finalizer: None,
        transcribing_started_at_ms: None,
        error: None,
        chunks_processed: None,
    }
}

} // verus!
