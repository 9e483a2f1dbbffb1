//! Recording: which device is used, how ffmpeg is run, which process is a
//! recorder, and how a recorder is stopped.
use vstd::prelude::*;

use crate::audio::{device_label, near_silent_device_hint, AudioLevel, DeviceHintContext};
use crate::error::ComlinkError;
use crate::numbers::{decimal, three_digit_text, three_digits, u64_text};
use crate::paths::{join_path, joined};
use crate::strings::{
    cat2, cat3, cat4, contains, copy_opt, lemma_texts_push, lossy_text, opt_text, str_contains,
    str_eq, str_trim, text_lossy, texts, trim,
};
use crate::system_audio::DeviceMatch;

verus! {

/// The ffmpeg input that is used where nothing better is known.
pub const DEFAULT_RECORD_DEVICE: &'static str = ":0";

/// Where the choice of a microphone came from.
#[derive(Debug, Clone, Copy, PartialEq, Eq, Structural)]
pub enum DeviceSource {
    /// `--device` on the command line.
    Flag,
    /// `COMLINK_RECORD_DEVICE`.
    Env,
    /// The default input of the system.
    SystemDefault,
    /// The fixed fallback.
    Fallback,
}

impl DeviceSource {
    /// How the source is called.
    pub open spec fn name(self) -> Seq<char> {
        match self {
            DeviceSource::Flag => "--device"@,
            DeviceSource::Env => "COMLINK_RECORD_DEVICE"@,
            DeviceSource::SystemDefault => "system default input"@,
            DeviceSource::Fallback => "fallback"@,
        }
    }

    /// How the source is called.
    pub fn as_str(self) -> (r: &'static str)
        ensures
            r@ == self.name(),
    {
        match self {
            DeviceSource::Flag => "--device",
            DeviceSource::Env => "COMLINK_RECORD_DEVICE",
            DeviceSource::SystemDefault => "system default input",
            DeviceSource::Fallback => "fallback",
        }
    }
}

/// A microphone that capture opens.
#[derive(Debug, PartialEq, Eq)]
pub struct ResolvedRecordDevice {
    /// The ffmpeg input, such as `:1`.
    pub avfoundation_input: String,
    /// The name of the device, where it is known.
    pub name: Option<String>,
    pub source: DeviceSource,
}

impl ResolvedRecordDevice {
    /// The device by its name and its input, or by the input alone.
    pub fn label(&self) -> (r: String)
        ensures
            r@ == device_label(opt_text(self.name), self.avfoundation_input@),
    {
        match &self.name {
            Some(name) => cat4(name, " (", &self.avfoundation_input, ")"),
            None => self.avfoundation_input.clone(),
        }
    }
}

/// A value without white space around it, unless nothing is left.
pub open spec fn nonblank(o: Option<String>) -> Option<Seq<char>> {
    match o {
        Some(s) => if trim(s@).len() > 0 {
            Some(trim(s@))
        } else {
            None
        },
        None => None,
    }
}

/// A value without white space around it, unless nothing is left.
fn normalize(o: Option<String>) -> (r: Option<String>)
    ensures
        opt_text(r) == nonblank(o),
{
    match o {
        Some(s) => {
            let t = str_trim(&s);
            if t.as_str().is_empty() {
                None
            } else {
                Some(t)
            }
        },
        None => None,
    }
}

/// The device that is asked for: `--device` wins over the environment, and blank
/// values do not count.
pub fn select_record_device_request(flag: Option<String>, env_value: Option<String>) -> (r: Option<
    (String, DeviceSource),
>)
    ensures
        match nonblank(flag) {
            Some(v) => r matches Some((s, source)) && s@ == v && source == DeviceSource::Flag,
            None => match nonblank(env_value) {
                Some(v) => r matches Some((s, source)) && s@ == v && source == DeviceSource::Env,
                None => r is None,
            },
        },
{
    match normalize(flag) {
        Some(v) => Some((v, DeviceSource::Flag)),
        None => match normalize(env_value) {
            Some(v) => Some((v, DeviceSource::Env)),
            None => None,
        },
    }
}

/// The microphone for a recording: the one asked for, as it was looked up; else
/// the default input of the system, where it is known; else the fallback.
pub fn resolve_record_device(
    requested: Option<(DeviceSource, Result<DeviceMatch, String>)>,
    system_default: Option<DeviceMatch>,
) -> (r: Result<ResolvedRecordDevice, ComlinkError>)
    ensures
        match requested {
            Some((source, Ok(m))) => r == Ok::<ResolvedRecordDevice, ComlinkError>(
                ResolvedRecordDevice {
                    avfoundation_input: m.avfoundation_input,
                    name: m.name,
                    source,
                },
            ),
            Some((_, Err(e))) => r matches Err(ComlinkError::AudioCaptureFailed(m)) && m == e,
            None => match system_default {
                Some(m) => r == Ok::<ResolvedRecordDevice, ComlinkError>(
                    ResolvedRecordDevice {
                        avfoundation_input: m.avfoundation_input,
                        name: m.name,
                        source: DeviceSource::SystemDefault,
                    },
                ),
                None => r matches Ok(d) && d.avfoundation_input@ == DEFAULT_RECORD_DEVICE@
                    && d.name is None && d.source == DeviceSource::Fallback,
            },
        },
{
    match requested {
        Some((source, Ok(m))) => Ok(
            ResolvedRecordDevice {
                avfoundation_input: m.avfoundation_input,
                name: m.name,
                source,
            },
        ),
        Some((_, Err(e))) => Err(ComlinkError::AudioCaptureFailed(e)),
        None => Ok(
            match system_default {
                Some(m) => ResolvedRecordDevice {
                    avfoundation_input: m.avfoundation_input,
                    name: m.name,
                    source: DeviceSource::SystemDefault,
                },
                None => fallback_device(),
            },
        ),
    }
}

/// The microphone that is used where nothing better is known.
pub fn fallback_device() -> (r: ResolvedRecordDevice)
    ensures
        r.avfoundation_input@ == DEFAULT_RECORD_DEVICE@,
        r.name is None,
        r.source == DeviceSource::Fallback,
{
    ResolvedRecordDevice {
        avfoundation_input: DEFAULT_RECORD_DEVICE.to_owned(),
        name: None,
        source: DeviceSource::Fallback,
    }
}

/// What to do about a near-silent recording; the devices are listed where they
/// could be read.
pub fn near_silent_hint(device: &ResolvedRecordDevice, available: &Option<Vec<String>>) -> (r:
    String)
    ensures
        r@ == crate::audio::device_hint(
            opt_text(device.name),
            device.avfoundation_input@,
            match *available {
                Some(d) => Some(texts(d@)),
                None => None,
            },
        ),
{
    near_silent_device_hint(
        DeviceHintContext {
            selector: device.avfoundation_input.as_str(),
            name: match &device.name {
                Some(n) => Some(n.as_str()),
                None => None,
            },
            available: match available {
                Some(d) => Some(d),
                None => None,
            },
        },
    )
}

/// The level, where it is near-silent. A recording that could not be measured is
/// never flagged.
pub fn diagnose_record_level(level: Option<AudioLevel>) -> (r: Option<AudioLevel>)
    ensures
        r == if level is Some && level->0.near_silent {
            level
        } else {
            None
        },
{
    match level {
        Some(l) => if l.is_near_silent() {
            Some(l)
        } else {
            None
        },
        None => None,
    }
}

/// The error of a recording: that nothing was said, where the audio was
/// near-silent, points at the device. Every other error stays as it is.
pub fn map_empty_transcript(error: ComlinkError, near_silent: Option<AudioLevel>, device: &str) -> (r:
    ComlinkError)
    ensures
        match (error, near_silent) {
            (ComlinkError::EmptyTranscript, Some(level)) => r matches ComlinkError::NoSpeechNearSilent {
                mean_dbfs,
                device: d,
            } && mean_dbfs == level.mean_dbfs && d@ == device@,
            _ => r == error,
        },
{
    match error {
        ComlinkError::EmptyTranscript => match near_silent {
            Some(level) => ComlinkError::NoSpeechNearSilent {
                mean_dbfs: level.mean_dbfs,
                device: device.to_owned(),
            },
            None => ComlinkError::EmptyTranscript,
        },
        other => other,
    }
}

// ---------------------------------------------------------------------------
// The live probe
// ---------------------------------------------------------------------------

/// What a short live capture came to.
#[derive(Debug, PartialEq, Eq)]
pub enum ProbeOutcome {
    /// It was measured.
    Level(AudioLevel),
    /// ffmpeg failed, could not be started or wrote no file.
    CaptureFailed { stderr_tail: String },
    /// ffmpeg did not finish in time; it was killed and reaped.
    TimedOut,
    /// What was captured could not be measured.
    Unmeasurable,
}

impl Clone for ProbeOutcome {
    fn clone(&self) -> (r: Self)
        ensures
            r == *self,
    {
        match self {
            ProbeOutcome::Level(l) => ProbeOutcome::Level(l.clone()),
            ProbeOutcome::CaptureFailed { stderr_tail } => ProbeOutcome::CaptureFailed {
                stderr_tail: stderr_tail.clone(),
            },
            ProbeOutcome::TimedOut => ProbeOutcome::TimedOut,
            ProbeOutcome::Unmeasurable => ProbeOutcome::Unmeasurable,
        }
    }
}

/// Captures a moment of audio from a device.
pub trait MicProbe {
    /// What came of it.
    fn probe(&self, device: &str) -> ProbeOutcome;
}

/// How much of ffmpeg's error stream is kept.
pub const PROBE_STDERR_CAP_BYTES: usize = 4096;

/// A capture with ffmpeg that has to end within a deadline.
#[derive(Debug, Clone)]
pub struct FfmpegMicProbe {
    pub ffmpeg: String,
    pub capture_ms: u64,
    pub deadline_ms: u64,
}

/// Milliseconds as seconds with three decimals.
pub open spec fn seconds_text(ms: nat) -> Seq<char> {
    decimal(ms / 1000) + "."@ + three_digits(ms % 1000)
}

/// The start of every capture from a device.
pub open spec fn capture_start(device: Seq<char>) -> Seq<Seq<char>> {
    seq![
        "-hide_banner"@,
        "-loglevel"@,
        "error"@,
        "-y"@,
        "-f"@,
        "avfoundation"@,
        "-i"@,
        device,
    ]
}

/// The arguments of a short capture into a WAV file.
pub open spec fn probe_arguments(device: Seq<char>, ms: nat, wav: Seq<char>) -> Seq<Seq<char>> {
    capture_start(device).push("-t"@).push(seconds_text(ms)).push("-ac"@).push("1"@).push(
        "-ar"@,
    ).push("16000"@).push("-acodec"@).push("pcm_s16le"@).push("-f"@).push("wav"@).push(wav)
}

/// The start of every capture from a device.
fn capture_arguments(device: &str) -> (r: Vec<String>)
    ensures
        texts(r@) == capture_start(device@),
{
    let mut r: Vec<String> = Vec::new();
    r.push("-hide_banner".to_owned());
    r.push("-loglevel".to_owned());
    r.push("error".to_owned());
    r.push("-y".to_owned());
    r.push("-f".to_owned());
    r.push("avfoundation".to_owned());
    r.push("-i".to_owned());
    r.push(device.to_owned());
    assert(texts(r@) =~= capture_start(device@));
    r
}

/// What a running probe does next.
#[derive(Debug, Clone, Copy, PartialEq, Eq, Structural)]
pub enum ProbePoll {
    /// ffmpeg has ended.
    Ended,
    /// ffmpeg is killed and reaped.
    Kill,
    /// The probe looks again later.
    Wait,
}

impl FfmpegMicProbe {
    /// A probe of a second and a half that has to end within five seconds.
    pub fn new(ffmpeg: String) -> (r: Self)
        ensures
            r.ffmpeg == ffmpeg,
            r.capture_ms == 1500,
            r.deadline_ms == 5000,
    {
        FfmpegMicProbe { ffmpeg, capture_ms: 1500, deadline_ms: 5000 }
    }

    /// The arguments of the capture.
    pub fn arguments(&self, device: &str, wav_path: &str) -> (r: Vec<String>)
        ensures
            texts(r@) == probe_arguments(device@, self.capture_ms as nat, wav_path@),
    {
        broadcast use lemma_texts_push;

        let mut r = capture_arguments(device);
        r.push("-t".to_owned());
        r.push(
            cat3(
                &u64_text(self.capture_ms / 1000),
                ".",
                &three_digit_text(self.capture_ms % 1000),
            ),
        );
        r.push("-ac".to_owned());
        r.push("1".to_owned());
        r.push("-ar".to_owned());
        r.push("16000".to_owned());
        r.push("-acodec".to_owned());
        r.push("pcm_s16le".to_owned());
        r.push("-f".to_owned());
        r.push("wav".to_owned());
        r.push(wav_path.to_owned());
        r
    }

    /// What the probe does next: `ended` says whether ffmpeg has ended, nothing
    /// where that could not be told.
    pub fn poll(&self, ended: Option<bool>, elapsed_ms: u64) -> (r: ProbePoll)
        ensures
            r == match ended {
                Some(true) => ProbePoll::Ended,
                None => ProbePoll::Kill,
                Some(false) => if elapsed_ms >= self.deadline_ms {
                    ProbePoll::Kill
                } else {
                    ProbePoll::Wait
                },
            },
    {
        match ended {
            Some(true) => ProbePoll::Ended,
            None => ProbePoll::Kill,
            Some(false) => if elapsed_ms >= self.deadline_ms {
                ProbePoll::Kill
            } else {
                ProbePoll::Wait
            },
        }
    }
}

/// How ffmpeg ended.
#[derive(Debug)]
pub struct ExitStatus {
    pub success: bool,
    /// The status as the system describes it.
    pub text: String,
}

/// What a probe came to: one that was killed timed out; else ffmpeg's failure
/// counts, then a file that is not there, then whether it could be measured.
pub fn probe_outcome(
    killed: bool,
    status: Option<ExitStatus>,
    stderr_tail: String,
    wav_is_file: bool,
    level: Option<AudioLevel>,
) -> (r: ProbeOutcome)
    ensures
        if killed {
            r is TimedOut
        } else {
            match status {
                None => r == (ProbeOutcome::CaptureFailed { stderr_tail }),
                Some(s) => if !s.success {
                    r matches ProbeOutcome::CaptureFailed { stderr_tail: t } && t@ == if stderr_tail@.len()
                        == 0 {
                        "ffmpeg exited with "@ + s.text@
                    } else {
                        stderr_tail@
                    }
                } else if !wav_is_file {
                    r matches ProbeOutcome::CaptureFailed { stderr_tail: t } && t@
                        == "ffmpeg produced no probe audio file"@
                } else {
                    match level {
                        Some(l) => r == ProbeOutcome::Level(l),
                        None => r is Unmeasurable,
                    }
                },
            }
        },
{
    if killed {
        return ProbeOutcome::TimedOut;
    }
    match status {
        None => ProbeOutcome::CaptureFailed { stderr_tail },
        Some(s) => if !s.success {
            let tail = if stderr_tail.as_str().is_empty() {
                cat2("ffmpeg exited with ", &s.text)
            } else {
                stderr_tail
            };
            ProbeOutcome::CaptureFailed { stderr_tail: tail }
        } else if !wav_is_file {
            ProbeOutcome::CaptureFailed {
                stderr_tail: "ffmpeg produced no probe audio file".to_owned(),
            }
        } else {
            match level {
                Some(l) => ProbeOutcome::Level(l),
                None => ProbeOutcome::Unmeasurable,
            }
        },
    }
}

/// The outcome of a probe that could not be set up.
pub fn probe_setup_failure(what: &str, error: &str) -> (r: ProbeOutcome)
    ensures
        r matches ProbeOutcome::CaptureFailed { stderr_tail } && stderr_tail@ == what@ + ": "@
            + error@,
{
    ProbeOutcome::CaptureFailed { stderr_tail: cat3(what, ": ", error) }
}

/// The last `cap` bytes.
pub open spec fn tail(b: Seq<u8>, cap: nat) -> Seq<u8> {
    if b.len() > cap {
        b.skip(b.len() - cap)
    } else {
        b
    }
}

/// Adds bytes to those kept so far and keeps the last `cap` of them.
pub fn keep_tail(kept: &mut Vec<u8>, more: &[u8], cap: usize)
    ensures
        final(kept)@ == tail(old(kept)@ + more@, cap as nat),
{
    let ghost all = kept@ + more@;
    let mut i: usize = 0;
    while i < more.len()
        invariant
            i <= more@.len(),
            kept@ == old(kept)@ + more@.take(i as int),
        decreases more@.len() - i,
    {
        kept.push(more[i]);
        i += 1;
        assert(kept@ =~= old(kept)@ + more@.take(i as int));
    }
    assert(kept@ =~= all);
    let total: usize = kept.len();
    if total > cap {
        let mut last: Vec<u8> = Vec::new();
        let start: usize = total - cap;
        let mut k: usize = start;
        while k < total
            invariant
                start <= k <= total == kept@.len(),
                kept@ == all,
                last@ == all.subrange(start as int, k as int),
            decreases total - k,
        {
            last.push(kept[k]);
            k += 1;
            assert(last@ =~= all.subrange(start as int, k as int));
        }
        assert(all.subrange(start as int, total as int) =~= all.skip(start as int));
        *kept = last;
    }
}

/// Reading a stream piece by piece keeps the same bytes as reading it whole.
pub proof fn law_tail_of_pieces(a: Seq<u8>, b: Seq<u8>, cap: nat)
    ensures
        tail(tail(a, cap) + b, cap) == tail(a + b, cap),
{
    assert(tail(tail(a, cap) + b, cap) =~= tail(a + b, cap));
}

/// The text at the end of a stream: its last `cap` bytes, trimmed.
pub fn read_capped_tail(data: &[u8], cap: usize) -> (r: String)
    ensures
        r@ == trim(lossy_text(tail(data@, cap as nat))),
{
    let mut kept: Vec<u8> = Vec::new();
    keep_tail(&mut kept, data, cap);
    assert(Seq::<u8>::empty() + data@ =~= data@);
    str_trim(&text_lossy(kept.as_slice()))
}

// ---------------------------------------------------------------------------
// Recording
// ---------------------------------------------------------------------------

/// The arguments of a recording into a WAV file.
pub open spec fn record_arguments(device: Seq<char>, wav: Seq<char>) -> Seq<Seq<char>> {
    capture_start(device).push("-ac"@).push("1"@).push("-ar"@).push("16000"@).push("-f"@).push(
        "wav"@,
    ).push(wav)
}

/// The arguments of a recording into a WAV file.
pub fn recording_arguments(device: &str, wav_path: &str) -> (r: Vec<String>)
    ensures
        texts(r@) == record_arguments(device@, wav_path@),
{
    broadcast use lemma_texts_push;

    let mut r = capture_arguments(device);
    r.push("-ac".to_owned());
    r.push("1".to_owned());
    r.push("-ar".to_owned());
    r.push("16000".to_owned());
    r.push("-f".to_owned());
    r.push("wav".to_owned());
    r.push(wav_path.to_owned());
    r
}

/// How long a recording lasts that ffmpeg has ended: a failure that says nothing,
/// or one that left no file, lasts no time; one that says something is an error.
pub fn recording_duration(
    success: bool,
    wav_present: bool,
    stderr: &[u8],
    probed_ms: Option<u64>,
) -> (r: Result<u64, ComlinkError>)
    ensures
        if success && wav_present {
            r == Ok::<u64, ComlinkError>(
                match probed_ms {
                    Some(ms) => ms,
                    None => 0,
                },
            )
        } else if trim(lossy_text(stderr@)).len() > 0 {
            r matches Err(ComlinkError::AudioCaptureFailed(m)) && m@ == trim(lossy_text(stderr@))
        } else {
            r == Ok::<u64, ComlinkError>(0)
        },
{
    if success && wav_present {
        return Ok(
            match probed_ms {
                Some(ms) => ms,
                None => 0,
            },
        );
    }
    let said = str_trim(&text_lossy(stderr));
    if said.as_str().is_empty() {
        Ok(0)
    } else {
        Err(ComlinkError::AudioCaptureFailed(said))
    }
}

/// What a recording that is asked to stop does next.
#[derive(Debug, Clone, Copy, PartialEq, Eq, Structural)]
pub enum RecorderPoll {
    /// The recorder has ended.
    Ended,
    /// The recorder is killed.
    Kill,
    /// The recording looks again later.
    Wait,
}

/// What a recording that is asked to stop does next: after two seconds the
/// recorder is killed.
pub fn poll_stopping_recorder(ended: bool, elapsed_ms: u64) -> (r: RecorderPoll)
    ensures
        r == if ended {
            RecorderPoll::Ended
        } else if elapsed_ms >= 2000 {
            RecorderPoll::Kill
        } else {
            RecorderPoll::Wait
        },
{
    if ended {
        RecorderPoll::Ended
    } else if elapsed_ms >= 2000 {
        RecorderPoll::Kill
    } else {
        RecorderPoll::Wait
    }
}

/// The files that a segmented capture writes.
pub open spec fn chunk_pattern(chunks_dir: Seq<char>) -> Seq<char> {
    joined(chunks_dir, "chunk-%05d.wav"@)
}

/// The files that a segmented capture writes.
pub fn chunk_output_pattern(chunks_dir: &str) -> (r: String)
    ensures
        r@ == chunk_pattern(chunks_dir@),
{
    join_path(chunks_dir, "chunk-%05d.wav")
}

/// The arguments of a capture that starts a new file every so many seconds.
pub open spec fn segmented_arguments(device: Seq<char>, seconds: nat, chunks_dir: Seq<char>) -> Seq<
    Seq<char>,
> {
    capture_start(device).push("-ac"@).push("1"@).push("-ar"@).push("16000"@).push("-f"@).push(
        "segment"@,
    ).push("-segment_time"@).push(
        decimal(
            if seconds < 1 {
                1
            } else {
                seconds
            },
        ),
    ).push("-reset_timestamps"@).push("1"@).push("-segment_format"@).push("wav"@).push(
        chunk_pattern(chunks_dir),
    )
}

/// The arguments of a capture that starts a new file every so many seconds, at
/// least one.
pub fn segmented_capture_arguments(device: &str, chunk_seconds: u64, chunks_dir: &str) -> (r: Vec<
    String,
>)
    ensures
        texts(r@) == segmented_arguments(device@, chunk_seconds as nat, chunks_dir@),
{
    let seconds: u64 = if chunk_seconds < 1 {
        1
    } else {
        chunk_seconds
    };
    broadcast use lemma_texts_push;

    let mut r = capture_arguments(device);
    r.push("-ac".to_owned());
    r.push("1".to_owned());
    r.push("-ar".to_owned());
    r.push("16000".to_owned());
    r.push("-f".to_owned());
    r.push("segment".to_owned());
    r.push("-segment_time".to_owned());
    r.push(u64_text(seconds));
    r.push("-reset_timestamps".to_owned());
    r.push("1".to_owned());
    r.push("-segment_format".to_owned());
    r.push("wav".to_owned());
    r.push(chunk_output_pattern(chunks_dir));
    r
}

/// The failure of a segmented capture whose ffmpeg ended at once.
pub fn segmented_capture_failure(status: &str, stderr: &str) -> (r: ComlinkError)
    ensures
        r matches ComlinkError::AudioCaptureFailed(m) && m@ == if trim(stderr@).len() == 0 {
            "ffmpeg exited immediately with status "@ + status@
        } else {
            trim(stderr@)
        },
{
    let detail = str_trim(stderr);
    ComlinkError::AudioCaptureFailed(
        if detail.as_str().is_empty() {
            cat2("ffmpeg exited immediately with status ", status)
        } else {
            detail
        },
    )
}

/// A running segmented capture.
#[derive(Debug)]
pub struct SegmentedCapture {
    pub pid: u32,
    pub identity: SegmentedCaptureIdentity,
}

/// What tells a recorder from any other process.
#[derive(Debug, PartialEq, Eq)]
pub struct SegmentedCaptureIdentity {
    pub pid: u32,
    pub output_pattern: String,
    pub process_started_at: Option<String>,
}

impl Clone for SegmentedCaptureIdentity {
    fn clone(&self) -> (r: Self)
        ensures
            r == *self,
    {
        SegmentedCaptureIdentity {
            pid: self.pid,
            output_pattern: self.output_pattern.clone(),
            process_started_at: copy_opt(&self.process_started_at),
        }
    }
}

impl SegmentedCaptureIdentity {
    /// The identity of a recorder that writes files of this pattern and started
    /// at this time.
    pub fn new(pid: u32, output_pattern: &str, process_started_at: Option<String>) -> (r: Self)
        ensures
            r.pid == pid,
            r.output_pattern@ == output_pattern@,
            r.process_started_at == process_started_at,
    {
        SegmentedCaptureIdentity {
            pid,
            output_pattern: output_pattern.to_owned(),
            process_started_at,
        }
    }
}

/// A process by its number and the time it started, so that a number used again
/// is not taken for the same process.
#[derive(Debug, PartialEq, Eq)]
pub struct ProcessIdentity {
    pub pid: u32,
    pub process_started_at: Option<String>,
}

impl Clone for ProcessIdentity {
    fn clone(&self) -> (r: Self)
        ensures
            r == *self,
    {
        ProcessIdentity {
            pid: self.pid,
            process_started_at: copy_opt(&self.process_started_at),
        }
    }
}

/// The identity of a process that started at this time.
pub fn process_identity(pid: u32, started_at: Option<String>) -> (r: ProcessIdentity)
    ensures
        r == (ProcessIdentity { pid, process_started_at: started_at }),
{
    ProcessIdentity { pid, process_started_at: started_at }
}

/// What the system says of a process number.
#[derive(Debug)]
pub struct ProcessFacts {
    pub running: bool,
    pub started_at: Option<String>,
    pub command: Option<String>,
}

/// Whether the process is still the one that was recorded: it runs, it started at
/// the recorded time where one was recorded, and its command line holds the
/// needle where one is given.
pub open spec fn is_same_process(
    pid: u32,
    started_at: Option<Seq<char>>,
    needle: Option<Seq<char>>,
    facts: ProcessFacts,
) -> bool {
    &&& pid != 0
    &&& facts.running
    &&& started_at is Some ==> opt_text(facts.started_at) == started_at
    &&& match needle {
        Some(n) => match facts.command {
            Some(c) => contains(c@, n),
            None => false,
        },
        None => true,
    }
}

/// The text of an optional string slice.
pub open spec fn opt_needle(o: Option<&str>) -> Option<Seq<char>> {
    match o {
        Some(s) => Some(s@),
        None => None,
    }
}

/// Whether the process is still the one that was recorded.
pub fn process_identity_is_running(
    identity: &ProcessIdentity,
    command_needle: Option<&str>,
    facts: &ProcessFacts,
) -> (r: bool)
    ensures
        r == is_same_process(
            identity.pid,
            opt_text(identity.process_started_at),
            opt_needle(command_needle),
            *facts,
        ),
{
    if identity.pid == 0 || !facts.running {
        return false;
    }
    if let Some(expected) = &identity.process_started_at {
        match &facts.started_at {
            Some(actual) => {
                if !str_eq(actual, expected) {
                    return false;
                }
            },
            None => {
                return false;
            },
        }
    }
    match command_needle {
        Some(needle) => match &facts.command {
            Some(command) => str_contains(command, needle),
            None => false,
        },
        None => true,
    }
}

/// Whether a recorder is still the process that was started: its command line
/// names the files that it writes.
pub open spec fn is_recorder(identity: SegmentedCaptureIdentity, facts: ProcessFacts) -> bool {
    is_same_process(
        identity.pid,
        opt_text(identity.process_started_at),
        Some(identity.output_pattern@),
        facts,
    )
}

/// Whether a recorder is still the process that was started.
pub fn segmented_capture_is_running(identity: &SegmentedCaptureIdentity, facts: &ProcessFacts) -> (r:
    bool)
    ensures
        r == is_recorder(*identity, *facts),
{
    process_identity_is_running(
        &ProcessIdentity {
            pid: identity.pid,
            process_started_at: copy_opt(&identity.process_started_at),
        },
        Some(identity.output_pattern.as_str()),
        facts,
    )
}

/// A value that a program printed, unless it failed or printed nothing.
pub fn printed_value(success: bool, stdout: &[u8]) -> (r: Option<String>)
    ensures
        opt_text(r) == if success && trim(lossy_text(stdout@)).len() > 0 {
            Some(trim(lossy_text(stdout@)))
        } else {
            None
        },
{
    if !success {
        return None;
    }
    let value = str_trim(&text_lossy(stdout));
    if value.as_str().is_empty() {
        None
    } else {
        Some(value)
    }
}

// ---------------------------------------------------------------------------
// Stopping a recorder
// ---------------------------------------------------------------------------

/// How far the stopping of a recorder has gone.
#[derive(Debug, Clone, Copy, PartialEq, Eq, Structural)]
pub enum StopPhase {
    /// It was asked to finish.
    Interrupted,
    /// It was told to end.
    Terminated,
    /// It was killed.
    Killed,
}

/// What stopping a recorder does next.
#[derive(Debug)]
pub enum StopStep {
    /// Nothing more; the value says whether a recorder was stopped.
    Done(bool),
    /// Send a signal, then wait this long at most for the recorder and its group
    /// to be gone.
    Signal { phase: StopPhase, signal: &'static str, wait_ms: u64 },
    /// The recorder could not be stopped.
    Fail(ComlinkError),
}

/// Stopping starts only on a process that was verified to be the recorder: any
/// other is left alone.
pub fn stop_start(recorder_running: bool, timeout_ms: u64) -> (r: StopStep)
    ensures
        if recorder_running {
            r matches StopStep::Signal { phase, signal, wait_ms } && phase
                == StopPhase::Interrupted && signal@ == "INT"@ && wait_ms == timeout_ms
        } else {
            r == StopStep::Done(false)
        },
{
    if recorder_running {
        StopStep::Signal { phase: StopPhase::Interrupted, signal: "INT", wait_ms: timeout_ms }
    } else {
        StopStep::Done(false)
    }
}

/// What follows a wait: a recorder that is not gone gets the next stronger
/// signal, and one that survives the last is an error.
pub fn stop_next(phase: StopPhase, gone: bool, pid: u32) -> (r: StopStep)
    ensures
        if gone {
            r == StopStep::Done(true)
        } else {
            match phase {
                StopPhase::Interrupted => r matches StopStep::Signal { phase: p, signal, wait_ms }
                    && p == StopPhase::Terminated && signal@ == "TERM"@ && wait_ms == 2000,
                StopPhase::Terminated => r matches StopStep::Signal { phase: p, signal, wait_ms }
                    && p == StopPhase::Killed && signal@ == "KILL"@ && wait_ms == 1000,
                StopPhase::Killed => r matches StopStep::Fail(
                    ComlinkError::AudioCaptureFailed(m),
                ) && m@ == "recorder pid "@ + decimal(pid as nat)
                    + " did not exit after SIGKILL"@,
            }
        },
{
    if gone {
        return StopStep::Done(true);
    }
    match phase {
        StopPhase::Interrupted => StopStep::Signal {
            phase: StopPhase::Terminated,
            signal: "TERM",
            wait_ms: 2000,
        },
        StopPhase::Terminated => StopStep::Signal {
            phase: StopPhase::Killed,
            signal: "KILL",
            wait_ms: 1000,
        },
        StopPhase::Killed => StopStep::Fail(
            ComlinkError::AudioCaptureFailed(
                cat3("recorder pid ", &u64_text(pid as u64), " did not exit after SIGKILL"),
            ),
        ),
    }
}

/// What sending a signal does next.
#[derive(Debug)]
pub enum SignalStep {
    /// The signal has been dealt with.
    Finished,
    /// Send it to the recorder's process group.
    ToGroup,
    /// Send it to the recorder alone.
    ToLeader,
    /// The signal could not be sent.
    Fail(ComlinkError),
}

/// A signal goes to the group first, unless nothing of it is left.
pub fn signal_start(leader_running: bool, group_alive: bool) -> (r: SignalStep)
    ensures
        if leader_running || group_alive {
            r is ToGroup
        } else {
            r is Finished
        },
{
    if leader_running || group_alive {
        SignalStep::ToGroup
    } else {
        SignalStep::Finished
    }
}

/// A recorder that leads no group gets the signal itself, where it runs.
pub fn signal_after_group(delivered: bool, leader_running: bool) -> (r: SignalStep)
    ensures
        if !delivered && leader_running {
            r is ToLeader
        } else {
            r is Finished
        },
{
    if !delivered && leader_running {
        SignalStep::ToLeader
    } else {
        SignalStep::Finished
    }
}

/// A signal that a running recorder did not get is an error.
pub fn signal_after_leader(delivered: bool, still_running: bool, signal: &str, pid: u32) -> (r:
    SignalStep)
    ensures
        if delivered || !still_running {
            r is Finished
        } else {
            r matches SignalStep::Fail(ComlinkError::AudioCaptureFailed(m)) && m@
                == "failed to send SIG"@ + signal@ + " to recorder pid "@ + decimal(pid as nat)
        },
{
    if delivered || !still_running {
        SignalStep::Finished
    } else {
        SignalStep::Fail(
            ComlinkError::AudioCaptureFailed(
                cat4("failed to send SIG", signal, " to recorder pid ", &u64_text(pid as u64)),
            ),
        )
    }
}

/// What a wait for a recorder does next.
#[derive(Debug, Clone, Copy, PartialEq, Eq, Structural)]
pub enum WaitStep {
    Gone,
    TimedOut,
    Again,
}

/// A recorder is gone when it and every process of its group are.
pub fn wait_step(leader_running: bool, group_alive: bool, elapsed_ms: u64, timeout_ms: u64) -> (r:
    WaitStep)
    ensures
        r == if !leader_running && !group_alive {
            WaitStep::Gone
        } else if elapsed_ms >= timeout_ms {
            WaitStep::TimedOut
        } else {
            WaitStep::Again
        },
{
    if !leader_running && !group_alive {
        WaitStep::Gone
    } else if elapsed_ms >= timeout_ms {
        WaitStep::TimedOut
    } else {
        WaitStep::Again
    }
}

/// Every capture opens the device it is given, with one channel at 16 kHz, and writes last
/// where it is told to; one in pieces starts a new file after the asked seconds, one at
/// least.
pub proof fn law_captures_open_their_device(
    device: Seq<char>,
    ms: nat,
    seconds: nat,
    wav: Seq<char>,
    dir: Seq<char>,
)
    ensures
        ({
            let p = probe_arguments(device, ms, wav);
            let r = record_arguments(device, wav);
            let s = segmented_arguments(device, seconds, dir);
            &&& p.subrange(4, 8) == seq!["-f"@, "avfoundation"@, "-i"@, device]
            &&& r.subrange(4, 8) == seq!["-f"@, "avfoundation"@, "-i"@, device]
            &&& s.subrange(4, 8) == seq!["-f"@, "avfoundation"@, "-i"@, device]
            &&& p.last() == wav && r.last() == wav && s.last() == joined(dir, "chunk-%05d.wav"@)
            &&& p.subrange(8, 10) == seq!["-t"@, decimal(ms / 1000) + "."@ + three_digits(ms % 1000)]
            &&& p.subrange(10, 14) == seq!["-ac"@, "1"@, "-ar"@, "16000"@]
            &&& r.subrange(8, 12) == seq!["-ac"@, "1"@, "-ar"@, "16000"@]
            &&& s.subrange(8, 12) == seq!["-ac"@, "1"@, "-ar"@, "16000"@]
            &&& seconds >= 1 ==> s.subrange(14, 16) == seq!["-segment_time"@, decimal(seconds)]
            &&& seconds == 0 ==> s.subrange(14, 16) == seq!["-segment_time"@, decimal(1)]
        }),
{
    let p = probe_arguments(device, ms, wav);
    let r = record_arguments(device, wav);
    let s = segmented_arguments(device, seconds, dir);
    let open = seq!["-f"@, "avfoundation"@, "-i"@, device];
    assert(p.subrange(4, 8) =~= open && r.subrange(4, 8) =~= open && s.subrange(4, 8) =~= open);
    let form = seq!["-ac"@, "1"@, "-ar"@, "16000"@];
    assert(p.subrange(10, 14) =~= form && r.subrange(8, 12) =~= form && s.subrange(8, 12) =~= form);
    assert(p.subrange(8, 10) =~= seq!["-t"@, decimal(ms / 1000) + "."@ + three_digits(ms % 1000)]);
    let time = if seconds < 1 {
        1
    } else {
        seconds
    };
    assert(s.subrange(14, 16) =~= seq!["-segment_time"@, decimal(time)]);
}

/// A process counts as the one that was noted just where it runs, started when that one
/// did, as far as it was noted, and its command line holds what it is known by.
pub proof fn law_known_processes(
    pid: u32,
    started_at: Option<Seq<char>>,
    needle: Seq<char>,
    facts: ProcessFacts,
)
    ensures
        is_same_process(pid, started_at, Some(needle), facts) ==> facts.running && pid != 0 && (
        facts.command matches Some(c) && contains(c@, needle)),
        started_at matches Some(t) ==> (is_same_process(pid, started_at, Some(needle), facts)
            ==> opt_text(facts.started_at) == Some(t)),
        pid != 0 && facts.running && opt_text(facts.started_at) == started_at && (
        facts.command matches Some(c) && contains(c@, needle)) ==> is_same_process(
            pid,
            started_at,
            Some(needle),
            facts,
        ),
        !facts.running ==> !is_same_process(pid, started_at, None, facts),
{
}

/// A kept tail is the end of what was read, all of it where it is no longer than allowed.
pub proof fn law_tails_are_the_end(b: Seq<u8>, cap: nat)
    ensures
        tail(b, cap).len() == if b.len() <= cap {
            b.len()
        } else {
            cap
        },
        forall|i: int|
            0 <= i < tail(b, cap).len() ==> #[trigger] tail(b, cap)[i] == b[b.len() - tail(
                b,
                cap,
            ).len() + i],
{
}

/// A value counts without the white space round it, and not at all where that is all of it.
pub proof fn law_blank_values_do_not_count(o: Option<String>)
    ensures
        nonblank(o) matches Some(v) ==> (o matches Some(s) && v == trim(s@)) && v.len() > 0,
        o matches Some(s) ==> (trim(s@).len() > 0 ==> nonblank(o) == Some(trim(s@))),
        o is None ==> nonblank(o) is None,
{
}

} // verus!
