//! The recorders of a meeting: which devices its streams capture, which processes
//! record them, and whether those still run.
use vstd::prelude::*;

use crate::error::ComlinkError;
use crate::meet::{
    is_bare_stream, new_stream, MeetSourceMode, MeetingSessionState, MeetingSourceLabel,
    MeetingSourceMetadata, MeetingSourceStream, MeetingStatus,
};
use crate::meet_store::{stream_chunks_dir, stream_dir};
use crate::paths::joined;
use crate::record::{
    chunk_output_pattern, chunk_pattern, is_recorder, segmented_capture_is_running, ProcessFacts,
    SegmentedCapture, SegmentedCaptureIdentity,
};
use crate::strings::{
    cat2, cat3, contains, copy_opt, eq_ignore_case, join, lemma_holds, lemma_texts_push, lower,
    opt_text, str_eq, str_eq_ignore_case, str_join, str_strip_start, str_trim, strip_start, texts,
    trim, CharClass,
};
use crate::system_audio::{
    avfoundation_audio_input, avfoundation_input, is_blackhole, is_blackhole_device,
    resolve_avfoundation_audio_device, selected_device, SystemAudioCapturePlan,
};

verus! {

/// The device that is asked for: the one given, or the one of the environment,
/// unless it is blank.
pub open spec fn requested_device(given: Option<Seq<char>>, env: Option<Seq<char>>) -> Option<
    Seq<char>,
> {
    let chosen = if given is Some {
        given
    } else {
        env
    };
    match chosen {
        Some(name) => if trim(name).len() == 0 {
            None
        } else {
            Some(trim(name))
        },
        None => None,
    }
}

/// The system-audio device that is asked for.
pub fn requested_system_device(given: Option<String>, env: Option<String>) -> (r: Option<String>)
    ensures
        opt_text(r) == requested_device(opt_text(given), opt_text(env)),
{
    let chosen = match given {
        Some(name) => Some(name),
        None => env,
    };
    match chosen {
        Some(name) => {
            let name = str_trim(&name);
            if name.as_str().is_empty() {
                None
            } else {
                Some(name)
            }
        },
        None => None,
    }
}

/// The refusal of a device that is no loopback device.
pub open spec fn not_blackhole(name: Seq<char>) -> Seq<char> {
    "system-audio capture requires a BlackHole input device; got `"@ + name
        + "`. Install BlackHole 2ch or set COMLINK_SYSTEM_AUDIO_DEVICE to the exact BlackHole AVFoundation input name."@
}

/// Whether `r` is the device that system audio is captured from: the requested one
/// among the devices, which has to be a loopback device, or that of the plan where
/// none is requested.
pub open spec fn is_system_device(
    requested: Option<Seq<char>>,
    devices: Result<Vec<String>, String>,
    plan: Result<SystemAudioCapturePlan, String>,
    r: Result<String, ComlinkError>,
) -> bool {
    match requested {
        None => match plan {
            Ok(p) => r == Ok::<String, ComlinkError>(p.device_name),
            Err(m) => r == Err::<String, ComlinkError>(ComlinkError::AudioCaptureFailed(m)),
        },
        Some(name) => match devices {
            Err(m) => r == Err::<String, ComlinkError>(ComlinkError::AudioCaptureFailed(m)),
            Ok(d) => match selected_device(name, texts(d@)) {
                None => r matches Err(ComlinkError::AudioCaptureFailed(m)) && m@
                    == "audio input device not found: "@ + trim(name),
                Some((input, found)) => {
                    let known = match found {
                        Some(f) => f,
                        None => name,
                    };
                    if is_blackhole(known) {
                        r matches Ok(device) && device@ == input
                    } else {
                        r matches Err(ComlinkError::AudioCaptureFailed(m)) && m@ == not_blackhole(
                            known,
                        )
                    }
                },
            },
        },
    }
}

/// The device that system audio is captured from, given the devices that are
/// listed and the plan for where none is requested.
pub fn resolve_system_audio_device(
    requested: Option<String>,
    devices: Result<Vec<String>, String>,
    plan: Result<SystemAudioCapturePlan, String>,
) -> (r: Result<String, ComlinkError>)
    ensures
        is_system_device(opt_text(requested), devices, plan, r),
{
    let requested = match requested {
        Some(requested) => requested,
        None => {
            return match plan {
                Ok(plan) => Ok(plan.device_name),
                Err(m) => Err(ComlinkError::AudioCaptureFailed(m)),
            };
        },
    };
    let devices = match devices {
        Ok(devices) => devices,
        Err(m) => return Err(ComlinkError::AudioCaptureFailed(m)),
    };
    let found = match resolve_avfoundation_audio_device(&requested, &devices) {
        Ok(found) => found,
        Err(m) => return Err(ComlinkError::AudioCaptureFailed(m)),
    };
    let known = match &found.name {
        Some(name) => name.clone(),
        None => requested,
    };
    if !is_blackhole_device(&known) {
        return Err(
            ComlinkError::AudioCaptureFailed(
                cat3(
                    "system-audio capture requires a BlackHole input device; got `",
                    &known,
                    "`. Install BlackHole 2ch or set COMLINK_SYSTEM_AUDIO_DEVICE to the exact BlackHole AVFoundation input name.",
                ),
            ),
        );
    }
    Ok(found.avfoundation_input)
}

/// Whether two names stand for one device.
pub open spec fn is_same_device(a: Seq<char>, b: Seq<char>) -> bool {
    eq_ignore_case(strip_start(a, CharClass::Is(':')), strip_start(b, CharClass::Is(':')))
}

/// Whether two names stand for one device.
pub fn same_audio_device(left: &str, right: &str) -> (r: bool)
    ensures
        r == is_same_device(left@, right@),
{
    str_eq_ignore_case(
        &str_strip_start(left, CharClass::Is(':')),
        &str_strip_start(right, CharClass::Is(':')),
    )
}

/// Whether a mode records system audio.
pub open spec fn records_system(mode: MeetSourceMode) -> bool {
    mode == MeetSourceMode::SystemOnly || mode == MeetSourceMode::MicPlusSystem
}

/// The labels and devices that a mode records. One device for both streams is
/// recorded once, as a mixed stream.
pub open spec fn streams_of(mode: MeetSourceMode, mic: Seq<char>, system: Seq<char>) -> Seq<
    (MeetingSourceLabel, Seq<char>),
> {
    match mode {
        MeetSourceMode::MicOnly => seq![(MeetingSourceLabel::UserMic, mic)],
        MeetSourceMode::SystemOnly => seq![(MeetingSourceLabel::SystemAudio, system)],
        MeetSourceMode::MicPlusSystem => if is_same_device(system, mic) {
            seq![(MeetingSourceLabel::Mixed, mic)]
        } else {
            seq![(MeetingSourceLabel::UserMic, mic), (MeetingSourceLabel::SystemAudio, system)]
        },
    }
}

/// Whether `r` are streams with these labels and devices and nothing else.
pub open spec fn are_bare_streams(
    s: Seq<(MeetingSourceLabel, Seq<char>)>,
    r: Seq<MeetingSourceStream>,
) -> bool {
    r.len() == s.len() && forall|i: int|
        0 <= i < s.len() ==> is_bare_stream(#[trigger] r[i], s[i].0, s[i].1)
}

/// The streams that a mode records, given the microphone and the device for system
/// audio, which counts just where the mode records it.
pub fn build_meeting_source_metadata(
    mode: MeetSourceMode,
    mic_device: &str,
    system_device: Result<String, ComlinkError>,
) -> (r: Result<MeetingSourceMetadata, ComlinkError>)
    ensures
        if records_system(mode) {
            match system_device {
                Err(e) => r == Err::<MeetingSourceMetadata, ComlinkError>(e),
                Ok(system) => r matches Ok(m) && m.mode == mode && are_bare_streams(
                    streams_of(mode, mic_device@, system@),
                    m.streams@,
                ),
            }
        } else {
            r matches Ok(m) && m.mode == mode && are_bare_streams(
                streams_of(mode, mic_device@, Seq::empty()),
                m.streams@,
            )
        },
{
    let mut streams: Vec<MeetingSourceStream> = Vec::new();
    match mode {
        MeetSourceMode::MicOnly => {
            streams.push(new_stream(MeetingSourceLabel::UserMic, mic_device.to_owned()));
        },
        MeetSourceMode::SystemOnly => {
            match system_device {
                Err(e) => return Err(e),
                Ok(system) => streams.push(new_stream(MeetingSourceLabel::SystemAudio, system)),
            }
        },
        MeetSourceMode::MicPlusSystem => {
            match system_device {
                Err(e) => return Err(e),
                Ok(system) => {
                    if same_audio_device(&system, mic_device) {
                        streams.push(new_stream(MeetingSourceLabel::Mixed, mic_device.to_owned()));
                    } else {
                        streams.push(
                            new_stream(MeetingSourceLabel::UserMic, mic_device.to_owned()),
                        );
                        streams.push(new_stream(MeetingSourceLabel::SystemAudio, system));
                    }
                },
            }
        },
    }
    Ok(MeetingSourceMetadata::new(mode, streams))
}

/// The input that a stream's recorder opens.
pub open spec fn capture_input(s: MeetingSourceStream) -> Seq<char> {
    if s.label == MeetingSourceLabel::SystemAudio || s.label == MeetingSourceLabel::Mixed
        && is_blackhole(s.device@) {
        avfoundation_input(s.device@)
    } else {
        s.device@
    }
}

/// The input that a stream's recorder opens.
pub fn capture_device_for_stream(stream: &MeetingSourceStream) -> (r: String)
    ensures
        r@ == capture_input(*stream),
{
    match stream.label {
        MeetingSourceLabel::SystemAudio => avfoundation_audio_input(&stream.device),
        MeetingSourceLabel::Mixed => if is_blackhole_device(&stream.device) {
            avfoundation_audio_input(&stream.device)
        } else {
            stream.device.clone()
        },
        MeetingSourceLabel::UserMic => stream.device.clone(),
    }
}

/// What a recorder is started with.
#[derive(Debug)]
pub struct CaptureRequest {
    pub label: MeetingSourceLabel,
    pub device: String,
    pub chunks_dir: String,
    pub stderr_path: String,
}

/// What a stream's recorder is started with.
pub fn capture_request(stream: &MeetingSourceStream) -> (r: Result<CaptureRequest, ComlinkError>)
    ensures
        match (stream.chunks_dir, stream.recorder_stderr_path) {
            (None, _) => r matches Err(ComlinkError::AudioCaptureFailed(m)) && m@
                == "missing stream chunks_dir"@,
            (Some(_), None) => r matches Err(ComlinkError::AudioCaptureFailed(m)) && m@
                == "missing stream recorder stderr path"@,
            (Some(dir), Some(path)) => r matches Ok(c) && c.label == stream.label && c.device@
                == capture_input(*stream) && c.chunks_dir@ == dir@ && c.stderr_path@ == path@,
        },
{
    match (&stream.chunks_dir, &stream.recorder_stderr_path) {
        (None, _) => Err(ComlinkError::AudioCaptureFailed("missing stream chunks_dir".to_owned())),
        (Some(_), None) => Err(
            ComlinkError::AudioCaptureFailed("missing stream recorder stderr path".to_owned()),
        ),
        (Some(dir), Some(path)) => Ok(
            CaptureRequest {
                label: stream.label,
                device: capture_device_for_stream(stream),
                chunks_dir: dir.clone(),
                stderr_path: path.clone(),
            },
        ),
    }
}

/// A recorder that was started for a stream.
#[derive(Debug)]
pub struct StartedRecorder {
    pub label: MeetingSourceLabel,
    pub capture: SegmentedCapture,
}

/// The position of the first stream with a label.
pub open spec fn stream_index(s: Seq<MeetingSourceStream>, label: MeetingSourceLabel) -> Option<int>
    decreases s.len(),
{
    if s.len() == 0 {
        None
    } else if s[0].label == label {
        Some(0)
    } else {
        match stream_index(s.drop_first(), label) {
            Some(i) => Some(i + 1),
            None => None,
        }
    }
}

/// The streams once a recorder was started for the first with its label.
pub open spec fn with_recorder(
    s: Seq<MeetingSourceStream>,
    label: MeetingSourceLabel,
    capture: SegmentedCapture,
) -> Seq<MeetingSourceStream> {
    match stream_index(s, label) {
        Some(i) => s.update(
            i,
            MeetingSourceStream {
                recorder_pid: Some(capture.pid),
                recorder_identity: Some(capture.identity),
                ..s[i]
            },
        ),
        None => s,
    }
}

/// The streams once the first `n` recorders were started.
pub open spec fn with_recorders(
    s: Seq<MeetingSourceStream>,
    started: Seq<StartedRecorder>,
    n: int,
) -> Seq<MeetingSourceStream>
    decreases n,
{
    if n <= 0 {
        s
    } else {
        with_recorder(
            with_recorders(s, started, n - 1),
            started[n - 1].label,
            started[n - 1].capture,
        )
    }
}

/// Whether `r` is the session once its recorders were started: the first of them
/// is also the session's own.
pub open spec fn has_recorders(
    s: MeetingSessionState,
    started: Seq<StartedRecorder>,
    r: MeetingSessionState,
) -> bool {
    let first = s.recorder_pid is None && started.len() > 0;
    &&& r == (MeetingSessionState {
        recorder_pid: if first {
            Some(started[0].capture.pid)
        } else {
            s.recorder_pid
        },
        recorder_identity: if first {
            Some(started[0].capture.identity)
        } else {
            s.recorder_identity
        },
        source: MeetingSourceMetadata { streams: r.source.streams, ..s.source },
        ..s
    })
    &&& r.source.streams@ == with_recorders(s.source.streams@, started, started.len() as int)
}

/// The position of the first stream with a label.
fn find_stream(streams: &Vec<MeetingSourceStream>, label: MeetingSourceLabel) -> (r: Option<usize>)
    ensures
        match stream_index(streams@, label) {
            Some(i) => r matches Some(k) && k == i && 0 <= i < streams@.len(),
            None => r is None,
        },
{
    let mut i: usize = 0;
    assert(streams@.skip(0) =~= streams@);
    while i < streams.len()
        invariant
            i <= streams@.len(),
            stream_index(streams@, label) == match stream_index(streams@.skip(i as int), label) {
                Some(j) => Some(i + j),
                None => None,
            },
        decreases streams@.len() - i,
    {
        assert(streams@.skip(i as int)[0] == streams@[i as int]);
        if streams[i].label == label {
            return Some(i);
        }
        assert(streams@.skip(i as int).drop_first() =~= streams@.skip(i + 1));
        i += 1;
    }
    None
}

/// Records which processes record a session.
pub fn apply_started_recorders(session: &mut MeetingSessionState, captures: Vec<StartedRecorder>)
    ensures
        has_recorders(*old(session), captures@, *final(session)),
{
    let ghost before = *session;
    let ghost all = captures@;
    let first_unknown = session.recorder_pid.is_none();
    if first_unknown && captures.len() > 0 {
        session.recorder_pid = Some(captures[0].capture.pid);
        session.recorder_identity = Some(captures[0].capture.identity.clone());
    }
    let mut streams: Vec<MeetingSourceStream> = Vec::new();
    std::mem::swap(&mut streams, &mut session.source.streams);
    for started in it: captures
        invariant
            it.seq() == all,
            streams@ == with_recorders(before.source.streams@, all, it.index()),
    {
        assert(started == all[it.index()]);
        if let Some(i) = find_stream(&streams, started.label) {
            let s = &streams[i];
            let changed = MeetingSourceStream {
                label: s.label,
                device: s.device.clone(),
                chunks_dir: copy_opt(&s.chunks_dir),
                recorder_stderr_path: copy_opt(&s.recorder_stderr_path),
                recorder_pid: Some(started.capture.pid),
                recorder_identity: Some(started.capture.identity),
            };
            streams.set(i, changed);
        }
    }
    session.source.streams = streams;
}

/// A recorder as `meet start` shows it.
#[derive(Debug, Clone)]
pub struct MeetRecorderStatus {
    pub source_label: MeetingSourceLabel,
    pub device: String,
    pub pid: u32,
    pub chunks_dir: String,
    pub stderr_path: String,
}

/// Whether `r` shows the recorder of a stream.
pub open spec fn is_recorder_status(
    session: MeetingSessionState,
    s: MeetingSourceStream,
    r: MeetRecorderStatus,
) -> bool {
    &&& r.source_label == s.label
    &&& r.device@ == s.device@
    &&& s.recorder_pid == Some(r.pid)
    &&& r.chunks_dir@ == stream_dir(session, s)
    &&& r.stderr_path@ == match s.recorder_stderr_path {
        Some(path) => path@,
        None => session.recorder_stderr_path@,
    }
}

/// Whether `r` shows the recorders of the first `n` streams, of which those
/// without a recorder are left out.
pub open spec fn are_recorder_statuses(
    session: MeetingSessionState,
    n: int,
    r: Seq<MeetRecorderStatus>,
) -> bool
    decreases n,
{
    if n <= 0 {
        r.len() == 0
    } else {
        let s = session.source.streams@[n - 1];
        if s.recorder_pid is Some {
            &&& r.len() > 0
            &&& is_recorder_status(session, s, r.last())
            &&& are_recorder_statuses(session, n - 1, r.drop_last())
        } else {
            are_recorder_statuses(session, n - 1, r)
        }
    }
}

/// The recorders of a session.
pub fn session_recorders_status(session: &MeetingSessionState) -> (r: Vec<MeetRecorderStatus>)
    ensures
        are_recorder_statuses(*session, session.source.streams@.len() as int, r@),
{
    let mut r: Vec<MeetRecorderStatus> = Vec::new();
    let mut i: usize = 0;
    while i < session.source.streams.len()
        invariant
            i <= session.source.streams@.len(),
            are_recorder_statuses(*session, i as int, r@),
        decreases session.source.streams@.len() - i,
    {
        let s = &session.source.streams[i];
        let ghost before = r@;
        if let Some(pid) = s.recorder_pid {
            r.push(
                MeetRecorderStatus {
                    source_label: s.label,
                    device: s.device.clone(),
                    pid,
                    chunks_dir: stream_chunks_dir(session, s),
                    stderr_path: match &s.recorder_stderr_path {
                        Some(path) => path.clone(),
                        None => session.recorder_stderr_path.clone(),
                    },
                },
            );
            assert(r@.drop_last() =~= before);
        }
        i += 1;
    }
    r
}

/// What is known of a recorder.
#[derive(Debug)]
pub enum RecorderRef {
    /// The identity that was recorded.
    Known(SegmentedCaptureIdentity),
    /// Just a process number and the files that the recorder writes.
    Pid(u32, String),
}

/// Whether `r` is what is known of a stream's recorder, if it has one.
pub open spec fn is_stream_recorder(
    session: MeetingSessionState,
    s: MeetingSourceStream,
    r: Option<RecorderRef>,
) -> bool {
    match s.recorder_identity {
        Some(identity) => r == Some(RecorderRef::Known(identity)),
        None => match s.recorder_pid {
            Some(pid) => r matches Some(RecorderRef::Pid(p, pattern)) && p == pid && pattern@
                == chunk_pattern(stream_dir(session, s)),
            None => r is None,
        },
    }
}

/// What is known of a stream's recorder.
pub fn stream_recorder(session: &MeetingSessionState, stream: &MeetingSourceStream) -> (r: Option<
    RecorderRef,
>)
    ensures
        is_stream_recorder(*session, *stream, r),
{
    match &stream.recorder_identity {
        Some(identity) => Some(RecorderRef::Known(identity.clone())),
        None => match stream.recorder_pid {
            Some(pid) => Some(
                RecorderRef::Pid(pid, chunk_output_pattern(&stream_chunks_dir(session, stream))),
            ),
            None => None,
        },
    }
}

/// Whether `r` is what is known of the recorders of the first `n` streams.
pub open spec fn are_stream_recorders(
    session: MeetingSessionState,
    n: int,
    r: Seq<RecorderRef>,
) -> bool
    decreases n,
{
    if n <= 0 {
        r.len() == 0
    } else {
        let s = session.source.streams@[n - 1];
        if s.recorder_identity is Some || s.recorder_pid is Some {
            &&& r.len() > 0
            &&& is_stream_recorder(session, s, Some(r.last()))
            &&& are_stream_recorders(session, n - 1, r.drop_last())
        } else {
            are_stream_recorders(session, n - 1, r)
        }
    }
}

/// Whether `r` are a session's recorders: those of its streams, or where none of
/// them has one, the session's own.
pub open spec fn are_recorders(session: MeetingSessionState, r: Seq<RecorderRef>) -> bool {
    exists|s: Seq<RecorderRef>|
        #[trigger] are_stream_recorders(session, session.source.streams@.len() as int, s) && if s.len()
            > 0 {
            r == s
        } else {
            match session.recorder_pid {
                Some(pid) => r.len() == 1 && (r[0] matches RecorderRef::Pid(p, pattern) && p == pid
                    && pattern@ == chunk_pattern(session.chunks_dir@)),
                None => r.len() == 0,
            }
        }
}

/// The recorders of a session.
pub fn session_recorder_identities(session: &MeetingSessionState) -> (r: Vec<RecorderRef>)
    ensures
        are_recorders(*session, r@),
{
    let mut r: Vec<RecorderRef> = Vec::new();
    let mut i: usize = 0;
    while i < session.source.streams.len()
        invariant
            i <= session.source.streams@.len(),
            are_stream_recorders(*session, i as int, r@),
        decreases session.source.streams@.len() - i,
    {
        let ghost before = r@;
        if let Some(recorder) = stream_recorder(session, &session.source.streams[i]) {
            r.push(recorder);
            assert(r@.drop_last() =~= before);
        }
        i += 1;
    }
    assert(are_stream_recorders(*session, session.source.streams@.len() as int, r@));
    if r.len() == 0 {
        if let Some(pid) = session.recorder_pid {
            r.push(RecorderRef::Pid(pid, chunk_output_pattern(&session.chunks_dir)));
        }
    }
    r
}

/// The identity of a recorder, given when its process started.
pub fn recorder_identity(recorder: RecorderRef, started_at: Option<String>) -> (r:
    SegmentedCaptureIdentity)
    ensures
        match recorder {
            RecorderRef::Known(identity) => r == identity,
            RecorderRef::Pid(pid, pattern) => r.pid == pid && r.output_pattern@ == pattern@
                && r.process_started_at == started_at,
        },
{
    match recorder {
        RecorderRef::Known(identity) => identity,
        RecorderRef::Pid(pid, pattern) => SegmentedCaptureIdentity::new(pid, &pattern, started_at),
    }
}

/// A recorder and what the system says of its process.
#[derive(Debug)]
pub struct RecorderFacts {
    pub identity: SegmentedCaptureIdentity,
    pub process: ProcessFacts,
}

/// Whether one of the recorders of a session is certain to run.
pub fn session_recorder_is_verified_running(recorders: &Vec<RecorderFacts>) -> (r: bool)
    ensures
        r == exists|i: int|
            0 <= i < recorders@.len() && is_recorder(
                (#[trigger] recorders@[i]).identity,
                recorders@[i].process,
            ),
{
    let mut i: usize = 0;
    while i < recorders.len()
        invariant
            i <= recorders@.len(),
            forall|j: int|
                0 <= j < i ==> !is_recorder(
                    (#[trigger] recorders@[j]).identity,
                    recorders@[j].process,
                ),
        decreases recorders@.len() - i,
    {
        if segmented_capture_is_running(&recorders[i].identity, &recorders[i].process) {
            assert(is_recorder(recorders@[i as int].identity, recorders@[i as int].process));
            return true;
        }
        i += 1;
    }
    false
}

/// Whether a stream is being recorded.
#[derive(Debug, Clone)]
pub struct MeetRecorderHealth {
    pub source_label: MeetingSourceLabel,
    pub device: String,
    pub pid: Option<u32>,
    pub alive: bool,
}

/// Whether a recorder is certain to run.
pub open spec fn runs(facts: Option<RecorderFacts>) -> bool {
    facts matches Some(f) && is_recorder(f.identity, f.process)
}

/// Whether `r` is the health of a stream's recorder.
pub open spec fn is_health(
    session: MeetingSessionState,
    s: MeetingSourceStream,
    facts: Option<RecorderFacts>,
    r: MeetRecorderHealth,
) -> bool {
    &&& r.source_label == s.label
    &&& r.device@ == s.device@
    &&& r.pid == s.recorder_pid
    &&& r.alive == (session.status == MeetingStatus::Recording && runs(facts))
}

/// The health of each stream's recorder, given what is known of it; none is alive
/// unless the session is being recorded.
pub fn session_recorder_health(
    session: &MeetingSessionState,
    facts: &Vec<Option<RecorderFacts>>,
) -> (r: Vec<MeetRecorderHealth>)
    requires
        facts@.len() == session.source.streams@.len(),
    ensures
        r@.len() == facts@.len(),
        forall|i: int|
            0 <= i < r@.len() ==> is_health(
                *session,
                session.source.streams@[i],
                facts@[i],
                #[trigger] r@[i],
            ),
{
    let recording = session.status == MeetingStatus::Recording;
    let mut r: Vec<MeetRecorderHealth> = Vec::new();
    let mut i: usize = 0;
    while i < session.source.streams.len()
        invariant
            i <= session.source.streams@.len(),
            facts@.len() == session.source.streams@.len(),
            recording == (session.status == MeetingStatus::Recording),
            r@.len() == i,
            forall|j: int|
                0 <= j < i ==> is_health(
                    *session,
                    session.source.streams@[j],
                    facts@[j],
                    #[trigger] r@[j],
                ),
        decreases session.source.streams@.len() - i,
    {
        let s = &session.source.streams[i];
        let running = match &facts[i] {
            Some(f) => segmented_capture_is_running(&f.identity, &f.process),
            None => false,
        };
        r.push(
            MeetRecorderHealth {
                source_label: s.label,
                device: s.device.clone(),
                pid: s.recorder_pid,
                alive: recording && running,
            },
        );
        i += 1;
    }
    r
}

/// The logs of the first `n` streams' recorders, each once.
pub open spec fn stream_logs(s: Seq<MeetingSourceStream>, n: int) -> Seq<Seq<char>>
    decreases n,
{
    if n <= 0 {
        Seq::empty()
    } else {
        let rest = stream_logs(s, n - 1);
        match s[n - 1].recorder_stderr_path {
            Some(path) => if rest.contains(path@) {
                rest
            } else {
                rest.push(path@)
            },
            None => rest,
        }
    }
}

/// The logs of a session's recorders: those of its streams, or its own.
pub open spec fn recorder_logs(session: MeetingSessionState) -> Seq<Seq<char>> {
    let logs = stream_logs(session.source.streams@, session.source.streams@.len() as int);
    if logs.len() == 0 && session.recorder_stderr_path@.len() > 0 {
        seq![session.recorder_stderr_path@]
    } else {
        logs
    }
}

/// Whether a text is listed.
fn is_listed(list: &Vec<String>, text: &str) -> (r: bool)
    ensures
        r == texts(list@).contains(text@),
{
    let mut i: usize = 0;
    while i < list.len()
        invariant
            i <= list@.len(),
            forall|j: int| 0 <= j < i ==> texts(list@)[j] != text@,
        decreases list@.len() - i,
    {
        assert(texts(list@)[i as int] == list@[i as int]@);
        if str_eq(&list[i], text) {
            return true;
        }
        i += 1;
    }
    false
}

/// The logs of a session's recorders.
pub fn recorder_stderr_paths(session: &MeetingSessionState) -> (r: Vec<String>)
    ensures
        texts(r@) == recorder_logs(*session),
{
    let mut r: Vec<String> = Vec::new();
    assert(texts(r@) =~= Seq::empty());
    let mut i: usize = 0;
    while i < session.source.streams.len()
        invariant
            i <= session.source.streams@.len(),
            texts(r@) == stream_logs(session.source.streams@, i as int),
        decreases session.source.streams@.len() - i,
    {
        broadcast use lemma_texts_push;

        if let Some(path) = &session.source.streams[i].recorder_stderr_path {
            if !is_listed(&r, path) {
                r.push(path.clone());
            }
        }
        i += 1;
    }
    assert(texts(r@).len() == r@.len());
    if r.len() == 0 && !session.recorder_stderr_path.as_str().is_empty() {
        r.push(session.recorder_stderr_path.clone());
        assert(texts(r@) =~= seq![session.recorder_stderr_path@]);
    }
    r
}

/// Where to look after a recording without audio.
pub open spec fn log_hint(logs: Seq<Seq<char>>) -> Seq<char> {
    if logs.len() == 0 {
        "no recorder stderr log was recorded"@
    } else if logs.len() == 1 {
        "see recorder stderr log: "@ + logs[0]
    } else {
        "see recorder stderr logs: "@ + join(logs, ", "@)
    }
}

/// The error for a recording without audio.
pub open spec fn is_no_chunks_error(session: MeetingSessionState, e: ComlinkError) -> bool {
    e matches ComlinkError::AudioCaptureFailed(m) && m@
        == "meeting recording produced no chunk files; "@ + log_hint(recorder_logs(session))
}

/// The error for a recording without audio.
pub fn no_meeting_chunks_error(session: &MeetingSessionState) -> (r: ComlinkError)
    ensures
        is_no_chunks_error(*session, r),
{
    let paths = recorder_stderr_paths(session);
    assert(texts(paths@).len() == paths@.len());
    let hint = if paths.len() == 0 {
        "no recorder stderr log was recorded".to_owned()
    } else if paths.len() == 1 {
        assert(texts(paths@)[0] == paths@[0]@);
        cat2("see recorder stderr log: ", &paths[0])
    } else {
        cat2("see recorder stderr logs: ", &str_join(&paths, ", "))
    };
    ComlinkError::AudioCaptureFailed(
        cat2("meeting recording produced no chunk files; ", &hint),
    )
}

/// What a mode records: the microphone, the sound of the system, or both, each as a stream
/// of its own unless they are one device, which is recorded once.
pub proof fn law_modes_record_their_sources(mode: MeetSourceMode, mic: Seq<char>, system: Seq<char>)
    ensures
        ({
            let s = streams_of(mode, mic, system);
            &&& mode == MeetSourceMode::MicOnly ==> s.len() == 1 && s[0].0
                == MeetingSourceLabel::UserMic && s[0].1 == mic
            &&& mode == MeetSourceMode::SystemOnly ==> s.len() == 1 && s[0].0
                == MeetingSourceLabel::SystemAudio && s[0].1 == system
            &&& mode == MeetSourceMode::MicPlusSystem && eq_ignore_case(mic, system) ==> s.len() == 1
                && s[0].0 == MeetingSourceLabel::Mixed && s[0].1 == mic
            &&& mode == MeetSourceMode::MicPlusSystem && mic.len() != system.len() && mic.len() > 0
                && system.len() > 0 && mic[0] != ':' && system[0] != ':' ==> s.len() == 2 && s[0].0
                == MeetingSourceLabel::UserMic && s[0].1 == mic && s[1].0
                == MeetingSourceLabel::SystemAudio && s[1].1 == system
        }),
        mode == MeetSourceMode::MicOnly <==> !records_system(mode),
{
    if eq_ignore_case(mic, system) {
        lemma_same_colons(mic, system);
    }
    if mic.len() != system.len() {
        assert(lower(mic).len() == mic.len() && lower(system).len() == system.len());
    }
}

/// Names that are equal but for case are so without their colons.
proof fn lemma_same_colons(a: Seq<char>, b: Seq<char>)
    requires
        eq_ignore_case(a, b),
    ensures
        is_same_device(b, a),
    decreases a.len(),
{
    assert(lower(a).len() == a.len() && lower(b).len() == b.len());
    if a.len() > 0 {
        assert(lower(a)[0] == lower(b)[0]);
        crate::strings::law_equal_but_for_case(a, b);
        assert((a[0] == ':') == (b[0] == ':')) by {
            assert(a[0] == b[0] || (65 <= a[0] as u32 <= 90 && b[0] as u32 == a[0] as u32 + 32) || (65
                <= b[0] as u32 <= 90 && a[0] as u32 == b[0] as u32 + 32));
        }
        if a[0] == ':' {
            assert(lower(a.drop_first()) =~= lower(a).drop_first());
            assert(lower(b.drop_first()) =~= lower(b).drop_first());
            lemma_same_colons(a.drop_first(), b.drop_first());
        }
    }
}

/// The first stream with a label has it, and none before it does.
proof fn lemma_stream_index(s: Seq<MeetingSourceStream>, label: MeetingSourceLabel)
    ensures
        match stream_index(s, label) {
            Some(i) => 0 <= i < s.len() && s[i].label == label && forall|j: int|
                0 <= j < i ==> (#[trigger] s[j]).label != label,
            None => forall|j: int| 0 <= j < s.len() ==> (#[trigger] s[j]).label != label,
        },
    decreases s.len(),
{
    if s.len() > 0 && s[0].label != label {
        let t = s.drop_first();
        lemma_stream_index(t, label);
        assert forall|j: int| 1 <= j < s.len() implies #[trigger] s[j] == t[j - 1] by {}
    }
}

/// A recorder that was started is noted with the first stream of its source, by its process
/// and what it is known by; the other streams, and everything else of that one, stay.
pub proof fn law_recorders_are_noted_with_their_stream(
    s: Seq<MeetingSourceStream>,
    label: MeetingSourceLabel,
    capture: SegmentedCapture,
    i: int,
)
    requires
        0 <= i < s.len(),
    ensures
        ({
            let r = with_recorder(s, label, capture);
            let first = s[i].label == label && forall|j: int|
                0 <= j < i ==> (#[trigger] s[j]).label != label;
            &&& r.len() == s.len()
            &&& first ==> r[i].recorder_pid == Some(capture.pid) && r[i].recorder_identity == Some(
                capture.identity,
            ) && r[i].label == label && r[i].device == s[i].device && r[i].chunks_dir
                == s[i].chunks_dir
            &&& !first ==> r[i] == s[i]
        }),
{
    lemma_stream_index(s, label);
    if let Some(k) = stream_index(s, label) {
        let x = s[k];
        let y = s[i];
    }
}

/// Every stream whose recorder is known is told, in the sequence of the streams, and no
/// other. `from` gives the stream of each.
pub proof fn law_every_recorder_is_known(
    session: MeetingSessionState,
    n: int,
    r: Seq<RecorderRef>,
) -> (from: Seq<int>)
    requires
        are_stream_recorders(session, n, r),
        0 <= n <= session.source.streams@.len(),
    ensures
        from.len() == r.len(),
        forall|j: int, k: int| 0 <= j < k < from.len() ==> #[trigger] from[j] < #[trigger] from[k],
        forall|k: int|
            #![trigger from[k]]
            0 <= k < r.len() ==> {
                let s = session.source.streams@[from[k]];
                &&& 0 <= from[k] < n
                &&& s.recorder_identity matches Some(identity) ==> r[k] == RecorderRef::Known(
                    identity,
                )
                &&& s.recorder_identity is None ==> (s.recorder_pid matches Some(pid) && (
                r[k] matches RecorderRef::Pid(p, _) && p == pid))
            },
        forall|i: int|
            0 <= i < n && ((#[trigger] session.source.streams@[i]).recorder_identity is Some
                || session.source.streams@[i].recorder_pid is Some) ==> from.contains(i),
    decreases n,
{
    if n <= 0 {
        Seq::empty()
    } else {
        let s = session.source.streams@[n - 1];
        if s.recorder_identity is Some || s.recorder_pid is Some {
            let t = r.drop_last();
            let rest = law_every_recorder_is_known(session, n - 1, t);
            let from = rest.push(n - 1);
            assert forall|k: int|
                #![trigger from[k]]
                0 <= k < r.len() implies {
                let s = session.source.streams@[from[k]];
                &&& 0 <= from[k] < n
                &&& s.recorder_identity matches Some(identity) ==> r[k] == RecorderRef::Known(
                    identity,
                )
                &&& s.recorder_identity is None ==> (s.recorder_pid matches Some(pid) && (
                r[k] matches RecorderRef::Pid(p, _) && p == pid))
            } by {
                if k < t.len() {
                    assert(from[k] == rest[k]);
                    assert(r[k] == t[k]);
                }
            }
            assert forall|j: int, k: int| 0 <= j < k < from.len() implies #[trigger] from[j]
                < #[trigger] from[k] by {
                if k == t.len() {
                    assert(rest[j] < n - 1);
                } else {
                    assert(rest[j] < rest[k]);
                }
            }
            assert forall|i: int|
                0 <= i < n && ((#[trigger] session.source.streams@[i]).recorder_identity is Some
                    || session.source.streams@[i].recorder_pid is Some) implies from.contains(
                i,
            ) by {
                if i < n - 1 {
                    let k = choose|k: int| 0 <= k < rest.len() && rest[k] == i;
                    assert(from[k] == i);
                } else {
                    assert(from[t.len() as int] == i);
                }
            }
            from
        } else {
            law_every_recorder_is_known(session, n - 1, r)
        }
    }
}

/// The logs of the streams are each told once, and no other.
pub proof fn law_each_log_is_told_once(s: Seq<MeetingSourceStream>, n: int)
    requires
        0 <= n <= s.len(),
    ensures
        stream_logs(s, n).no_duplicates(),
        forall|i: int|
            0 <= i < n ==> ((#[trigger] s[i]).recorder_stderr_path matches Some(path)
                ==> stream_logs(s, n).contains(path@)),
        forall|x: Seq<char>| #[trigger]
            stream_logs(s, n).contains(x) ==> exists|i: int|
                0 <= i < n && opt_text((#[trigger] s[i]).recorder_stderr_path) == Some(x),
    decreases n,
{
    if n > 0 {
        law_each_log_is_told_once(s, n - 1);
        let rest = stream_logs(s, n - 1);
        let all = stream_logs(s, n);
        assert forall|x: Seq<char>| rest.contains(x) implies #[trigger] all.contains(x) by {
            let k = choose|k: int| 0 <= k < rest.len() && rest[k] == x;
            assert(all[k] == x);
        }
        if let Some(path) = s[n - 1].recorder_stderr_path {
            if !rest.contains(path@) {
                assert(all[all.len() - 1] == path@);
            }
        }
        assert forall|x: Seq<char>| #[trigger] all.contains(x) implies exists|i: int|
            0 <= i < n && opt_text((#[trigger] s[i]).recorder_stderr_path) == Some(x) by {
            if rest.contains(x) {
                let i = choose|i: int|
                    0 <= i < n - 1 && opt_text((#[trigger] s[i]).recorder_stderr_path) == Some(x);
                assert(opt_text(s[i].recorder_stderr_path) == Some(x));
            } else {
                let k = choose|k: int| 0 <= k < all.len() && all[k] == x;
                if k < rest.len() {
                    assert(rest[k] == x);
                }
                assert(opt_text(s[n - 1].recorder_stderr_path) == Some(x));
            }
        }
        assert(all.no_duplicates());
    }
}

/// A device that is asked for counts without the white space round it, the given one before
/// that of the environment; sound of the system comes from a loopback device alone.
pub proof fn law_asked_devices(
    given: Option<Seq<char>>,
    env: Option<Seq<char>>,
    devices: Result<Vec<String>, String>,
    plan: Result<SystemAudioCapturePlan, String>,
    r: Result<String, ComlinkError>,
)
    requires
        is_system_device(requested_device(given, env), devices, plan, r),
    ensures
        given matches Some(name) ==> requested_device(given, env) == if trim(name).len() > 0 {
            Some(trim(name))
        } else {
            None
        },
        given is None ==> (env matches Some(name) ==> trim(name).len() > 0 ==> requested_device(
            given,
            env,
        ) == Some(trim(name))),
        given is None && env is None ==> requested_device(given, env) is None,
        requested_device(given, env) is None ==> match plan {
            Ok(p) => r == Ok::<String, ComlinkError>(p.device_name),
            Err(m) => r is Err,
        },
        requested_device(given, env) matches Some(name) ==> r is Ok ==> devices is Ok && (
        selected_device(name, texts(devices->Ok_0@)) matches Some((input, found)) && r->Ok_0@ == input
            && is_blackhole(
            match found {
                Some(f) => f,
                None => name,
            },
        )),
{
}

/// Where each stream has a source of its own and each recorder was started for the stream in
/// its place, every such stream has its recorder noted, and the others stay as they are.
pub proof fn law_all_recorders_are_noted(
    s: Seq<MeetingSourceStream>,
    started: Seq<StartedRecorder>,
    n: int,
)
    requires
        0 <= n <= started.len() <= s.len(),
        forall|i: int| 0 <= i < started.len() ==> (#[trigger] started[i]).label == s[i].label,
        forall|i: int, j: int|
            0 <= i < j < s.len() ==> (#[trigger] s[i]).label != (#[trigger] s[j]).label,
    ensures
        with_recorders(s, started, n).len() == s.len(),
        forall|i: int|
            0 <= i < n ==> (#[trigger] with_recorders(s, started, n)[i]).recorder_pid == Some(
                started[i].capture.pid,
            ) && with_recorders(s, started, n)[i].recorder_identity == Some(
                started[i].capture.identity,
            ) && with_recorders(s, started, n)[i].label == s[i].label,
        forall|i: int| n <= i < s.len() ==> #[trigger] with_recorders(s, started, n)[i] == s[i],
    decreases n,
{
    if n > 0 {
        law_all_recorders_are_noted(s, started, n - 1);
        let t = with_recorders(s, started, n - 1);
        let label = started[n - 1].label;
        assert forall|j: int| 0 <= j < t.len() implies (#[trigger] t[j]).label == s[j].label by {}
        lemma_stream_index(t, label);
        assert(t[n - 1].label == label);
        assert(stream_index(t, label) == Some(n - 1)) by {
            if let Some(k) = stream_index(t, label) {
                assert(t[k].label == s[k].label);
                if k < n - 1 {
                    assert(s[k].label != s[n - 1].label);
                }
            }
        }
    }
}

/// A recorder counts as running just where the meeting is being recorded and its process is
/// there, with a command line that names the files of the stream.
pub proof fn law_running_recorders(
    session: MeetingSessionState,
    s: MeetingSourceStream,
    facts: Option<RecorderFacts>,
    r: MeetRecorderHealth,
)
    requires
        is_health(session, s, facts, r),
    ensures
        r.source_label == s.label && r.device@ == s.device@ && r.pid == s.recorder_pid,
        r.alive ==> session.status == MeetingStatus::Recording && (facts matches Some(f)
            && f.process.running && (f.process.command matches Some(c) && contains(
            c@,
            f.identity.output_pattern@,
        ))),
        facts is None || session.status != MeetingStatus::Recording ==> !r.alive,
        facts matches Some(f) ==> (session.status == MeetingStatus::Recording && f.process.running
            && f.identity.pid != 0 && opt_text(f.process.started_at) == opt_text(
            f.identity.process_started_at,
        ) && (f.process.command matches Some(c) && contains(c@, f.identity.output_pattern@))
            ==> r.alive),
{
}

/// Sound of the system is captured from an input of its device's name; a microphone from
/// the input that was chosen.
pub proof fn law_captured_inputs(s: MeetingSourceStream)
    ensures
        s.label == MeetingSourceLabel::UserMic ==> capture_input(s) == s.device@,
        s.label == MeetingSourceLabel::SystemAudio && s.device@.len() > 0 && s.device@[0] != ':'
            ==> capture_input(s) == ":"@ + s.device@,
        s.label == MeetingSourceLabel::SystemAudio && s.device@.len() > 0 && s.device@[0] == ':'
            ==> capture_input(s) == s.device@,
{
    reveal_strlit(":");
    if s.device@.len() > 0 {
        assert(s.device@.take(1)[0] == s.device@[0]);
        if s.device@[0] == ':' {
            assert(s.device@.take(1) =~= ":"@);
        }
    }
}

/// A session whose recorders were started names them all, and for itself the first; nothing
/// else of it changes.
pub proof fn law_started_sessions_name_their_recorders(
    s: MeetingSessionState,
    started: Seq<StartedRecorder>,
    r: MeetingSessionState,
)
    requires
        has_recorders(s, started, r),
        s.recorder_pid is None,
        0 < started.len() <= s.source.streams@.len(),
        forall|i: int|
            0 <= i < started.len() ==> (#[trigger] started[i]).label == s.source.streams@[i].label,
        forall|i: int, j: int|
            0 <= i < j < s.source.streams@.len() ==> (#[trigger] s.source.streams@[i]).label
                != (#[trigger] s.source.streams@[j]).label,
    ensures
        r.recorder_pid == Some(started[0].capture.pid),
        r.recorder_identity == Some(started[0].capture.identity),
        forall|i: int|
            0 <= i < started.len() ==> (#[trigger] r.source.streams@[i]).recorder_pid == Some(
                started[i].capture.pid,
            ),
        r.session_id == s.session_id && r.status == s.status && r.started_at_ms == s.started_at_ms,
{
    law_all_recorders_are_noted(s.source.streams@, started, started.len() as int);
}

/// A recorder that is known by its process alone is known by the files that it writes: those
/// of the stream's own directory, or else of the session's.
pub proof fn law_recorders_by_their_files(
    session: MeetingSessionState,
    s: MeetingSourceStream,
    r: Option<RecorderRef>,
)
    requires
        is_stream_recorder(session, s, r),
    ensures
        s.recorder_identity is None && s.recorder_pid is None <==> r is None,
        s.recorder_identity is None ==> (r matches Some(RecorderRef::Pid(pid, pattern))
            ==> s.recorder_pid == Some(pid) && pattern@ == joined(
            match s.chunks_dir {
                Some(dir) => dir@,
                None => session.chunks_dir@,
            },
            "chunk-%05d.wav"@,
        )),
        s.recorder_identity matches Some(identity) ==> r == Some(RecorderRef::Known(identity)),
{
}

/// What is shown of a stream's recorder is the stream's source, device and directory, and the
/// process that records it.
pub proof fn law_shown_recorders(
    session: MeetingSessionState,
    s: MeetingSourceStream,
    r: MeetRecorderStatus,
)
    requires
        is_recorder_status(session, s, r),
    ensures
        r.source_label == s.label && r.device@ == s.device@ && s.recorder_pid == Some(r.pid),
        s.chunks_dir matches Some(dir) ==> r.chunks_dir@ == dir@,
        s.chunks_dir is None ==> r.chunks_dir@ == session.chunks_dir@,
        s.recorder_stderr_path matches Some(path) ==> r.stderr_path@ == path@,
{
}

/// A recording without audio is an error that says where to look: it names each log.
pub proof fn law_lost_recordings_name_their_logs(logs: Seq<Seq<char>>)
    ensures
        logs.len() == 1 ==> contains(log_hint(logs), logs[0]),
        logs.len() > 1 ==> contains(log_hint(logs), join(logs, ", "@)),
{
    let none = Seq::<char>::empty();
    if logs.len() == 1 {
        lemma_holds("see recorder stderr log: "@, logs[0], none);
        assert(log_hint(logs) =~= "see recorder stderr log: "@ + logs[0] + none);
    } else if logs.len() > 1 {
        lemma_holds("see recorder stderr logs: "@, join(logs, ", "@), none);
        assert(log_hint(logs) =~= "see recorder stderr logs: "@ + join(logs, ", "@) + none);
    }
}

} // verus!
