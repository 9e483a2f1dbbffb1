//! What can go wrong, with the exit code, the stable identifier and the message
//! of each failure.
use vstd::prelude::*;

use crate::numbers::{decimal, u64_text};
use crate::strings::{cat2, cat3, cat4, cat5, cat6, cat7, cat8};

verus! {

/// A failure of a command.
#[allow(inconsistent_fields)]
#[derive(Debug)]
pub enum ComlinkError {
    InputMissing(String),
    DependencyMissing(&'static str),
    DependencyPathMissing { name: &'static str, path: String },
    DependencyNotExecutable { name: &'static str, path: String },
    ModelMissing,
    ModelPathMissing(String),
    FfmpegFailed(String),
    AudioCaptureFailed(String),
    WhisperFailed(String),
    EmptyTranscript,
    /// Nothing was transcribed and the capture was near-silent; `mean_dbfs` is the mean level with one decimal.
    NoSpeechNearSilent { mean_dbfs: String, device: String },
    RecordingTooShort { duration_ms: u64, min_duration_ms: u64 },
    ClipboardFailed(String),
    ConfigHomeMissing(&'static str),
    InvalidConfigValue { name: &'static str, value: String },
    ConfigParse { path: String, source: String },
    Storage(String),
    HistoryNotFound(String),
    MeetingSessionNotFound(String),
    MeetingNoActiveSession,
    MeetingAlreadyActive(String),
    MeetingNotRecording(String),
    MeetingNotStopped(String),
    MeetingExportUnavailable(String),
    MeetingExportInvalid { id: String, path: String, reason: String },
    MeetingNotTranscribing(String),
    MeetingLifecycleBusy(String),
    MeetingFinalizeLaunchFailed(String),
    MeetingStillTranscribing(String),
    MeetingFinalizeFailed(String),
    /// `MeetingFinalizeFailed` with the recorded error text, for callers that must show why finalize failed.
    MeetingFinalizeFailedDetail { id: String, error: String },
    McpStartDisabled,
    UnknownConfigKey(String),
    MeetingChunkCleanupFailed { id: String, reason: String },
    MeetingSessionUnreadable { id: String, path: String, reason: String },
    NotFound { kind: &'static str, name: String },
    ModeNotFound(String),
    Io(String),
    Json(String),
}

impl ComlinkError {
    /// The process exit code that reports this failure.
    pub open spec fn exit_status(self) -> u8 {
        match self {
            ComlinkError::ModelMissing
            | ComlinkError::ModelPathMissing(_)
            | ComlinkError::WhisperFailed(_) => 3,
            ComlinkError::AudioCaptureFailed(_) => 2,
            ComlinkError::EmptyTranscript
            | ComlinkError::NoSpeechNearSilent { .. }
            | ComlinkError::RecordingTooShort { .. } => 4,
            ComlinkError::ClipboardFailed(_) => 5,
            _ => 1,
        }
    }

    /// The process exit code that reports this failure.
    pub fn exit_code(&self) -> (r: u8)
        ensures
            r == self.exit_status(),
    {
        match self {
            ComlinkError::ModelMissing
            | ComlinkError::ModelPathMissing(_)
            | ComlinkError::WhisperFailed(_) => 3,
            ComlinkError::AudioCaptureFailed(_) => 2,
            ComlinkError::EmptyTranscript
            | ComlinkError::NoSpeechNearSilent { .. }
            | ComlinkError::RecordingTooShort { .. } => 4,
            ComlinkError::ClipboardFailed(_) => 5,
            _ => 1,
        }
    }

    /// The condition that the failure describes, as a number. The two forms of a
    /// failed finalize describe the same condition.
    pub open spec fn condition(self) -> int {
        match self {
            ComlinkError::InputMissing(_) => 0,
            ComlinkError::DependencyMissing(_) => 1,
            ComlinkError::DependencyPathMissing { .. } => 2,
            ComlinkError::DependencyNotExecutable { .. } => 3,
            ComlinkError::ModelMissing => 4,
            ComlinkError::ModelPathMissing(_) => 5,
            ComlinkError::FfmpegFailed(_) => 6,
            ComlinkError::AudioCaptureFailed(_) => 7,
            ComlinkError::WhisperFailed(_) => 8,
            ComlinkError::EmptyTranscript => 9,
            ComlinkError::NoSpeechNearSilent { .. } => 10,
            ComlinkError::RecordingTooShort { .. } => 11,
            ComlinkError::ClipboardFailed(_) => 12,
            ComlinkError::ConfigHomeMissing(_) => 13,
            ComlinkError::InvalidConfigValue { .. } => 14,
            ComlinkError::ConfigParse { .. } => 15,
            ComlinkError::Storage(_) => 16,
            ComlinkError::HistoryNotFound(_) => 17,
            ComlinkError::MeetingSessionNotFound(_) => 18,
            ComlinkError::MeetingNoActiveSession => 19,
            ComlinkError::MeetingAlreadyActive(_) => 20,
            ComlinkError::MeetingNotRecording(_) => 21,
            ComlinkError::MeetingNotStopped(_) => 22,
            ComlinkError::MeetingExportUnavailable(_) => 23,
            ComlinkError::MeetingExportInvalid { .. } => 24,
            ComlinkError::MeetingNotTranscribing(_) => 25,
            ComlinkError::MeetingLifecycleBusy(_) => 26,
            ComlinkError::MeetingFinalizeLaunchFailed(_) => 27,
            ComlinkError::MeetingStillTranscribing(_) => 28,
            ComlinkError::MeetingFinalizeFailed(_) => 29,
            ComlinkError::MeetingFinalizeFailedDetail { .. } => 29,
            ComlinkError::McpStartDisabled => 31,
            ComlinkError::UnknownConfigKey(_) => 32,
            ComlinkError::MeetingChunkCleanupFailed { .. } => 33,
            ComlinkError::MeetingSessionUnreadable { .. } => 34,
            ComlinkError::NotFound { .. } => 35,
            ComlinkError::ModeNotFound(_) => 36,
            ComlinkError::Io(_) => 37,
            ComlinkError::Json(_) => 38,
        }
    }

    /// The stable, machine-readable identifier of the failure.
    pub open spec fn code(self) -> Seq<char> {
        match self {
            ComlinkError::InputMissing(_) => "input_missing"@,
            ComlinkError::DependencyMissing(_) => "dependency_missing"@,
            ComlinkError::DependencyPathMissing { .. } => "dependency_path_missing"@,
            ComlinkError::DependencyNotExecutable { .. } => "dependency_not_executable"@,
            ComlinkError::ModelMissing => "model_missing"@,
            ComlinkError::ModelPathMissing(_) => "model_path_missing"@,
            ComlinkError::FfmpegFailed(_) => "ffmpeg_failed"@,
            ComlinkError::AudioCaptureFailed(_) => "audio_capture_failed"@,
            ComlinkError::WhisperFailed(_) => "whisper_failed"@,
            ComlinkError::EmptyTranscript => "empty_transcript"@,
            ComlinkError::NoSpeechNearSilent { .. } => "no_speech_near_silent"@,
            ComlinkError::RecordingTooShort { .. } => "recording_too_short"@,
            ComlinkError::ClipboardFailed(_) => "clipboard_failed"@,
            ComlinkError::ConfigHomeMissing(_) => "config_home_missing"@,
            ComlinkError::InvalidConfigValue { .. } => "invalid_config_value"@,
            ComlinkError::ConfigParse { .. } => "config_parse"@,
            ComlinkError::Storage(_) => "storage"@,
            ComlinkError::HistoryNotFound(_) => "history_not_found"@,
            ComlinkError::MeetingSessionNotFound(_) => "meeting_session_not_found"@,
            ComlinkError::MeetingNoActiveSession => "meeting_no_active_session"@,
            ComlinkError::MeetingAlreadyActive(_) => "meeting_already_active"@,
            ComlinkError::MeetingNotRecording(_) => "meeting_not_recording"@,
            ComlinkError::MeetingNotStopped(_) => "meeting_not_stopped"@,
            ComlinkError::MeetingExportUnavailable(_) => "meeting_export_unavailable"@,
            ComlinkError::MeetingExportInvalid { .. } => "meeting_export_invalid"@,
            ComlinkError::MeetingNotTranscribing(_) => "meeting_not_transcribing"@,
            ComlinkError::MeetingLifecycleBusy(_) => "meeting_lifecycle_busy"@,
            ComlinkError::MeetingFinalizeLaunchFailed(_) => "meeting_finalize_launch_failed"@,
            ComlinkError::MeetingStillTranscribing(_) => "meeting_still_transcribing"@,
            ComlinkError::MeetingFinalizeFailed(_) => "meeting_finalize_failed"@,
            ComlinkError::MeetingFinalizeFailedDetail { .. } => "meeting_finalize_failed"@,
            ComlinkError::McpStartDisabled => "mcp_start_disabled"@,
            ComlinkError::UnknownConfigKey(_) => "unknown_config_key"@,
            ComlinkError::MeetingChunkCleanupFailed { .. } => "meeting_chunk_cleanup_failed"@,
            ComlinkError::MeetingSessionUnreadable { .. } => "meeting_session_unreadable"@,
            ComlinkError::NotFound { .. } => "not_found"@,
            ComlinkError::ModeNotFound(_) => "mode_not_found"@,
            ComlinkError::Io(_) => "io"@,
            ComlinkError::Json(_) => "json"@,
        }
    }

    /// The stable, machine-readable identifier of the failure.
    pub fn error_code(&self) -> (r: &'static str)
        ensures
            r@ == self.code(),
    {
        match self {
            ComlinkError::InputMissing(_) => "input_missing",
            ComlinkError::DependencyMissing(_) => "dependency_missing",
            ComlinkError::DependencyPathMissing { .. } => "dependency_path_missing",
            ComlinkError::DependencyNotExecutable { .. } => "dependency_not_executable",
            ComlinkError::ModelMissing => "model_missing",
            ComlinkError::ModelPathMissing(_) => "model_path_missing",
            ComlinkError::FfmpegFailed(_) => "ffmpeg_failed",
            ComlinkError::AudioCaptureFailed(_) => "audio_capture_failed",
            ComlinkError::WhisperFailed(_) => "whisper_failed",
            ComlinkError::EmptyTranscript => "empty_transcript",
            ComlinkError::NoSpeechNearSilent { .. } => "no_speech_near_silent",
            ComlinkError::RecordingTooShort { .. } => "recording_too_short",
            ComlinkError::ClipboardFailed(_) => "clipboard_failed",
            ComlinkError::ConfigHomeMissing(_) => "config_home_missing",
            ComlinkError::InvalidConfigValue { .. } => "invalid_config_value",
            ComlinkError::ConfigParse { .. } => "config_parse",
            ComlinkError::Storage(_) => "storage",
            ComlinkError::HistoryNotFound(_) => "history_not_found",
            ComlinkError::MeetingSessionNotFound(_) => "meeting_session_not_found",
            ComlinkError::MeetingNoActiveSession => "meeting_no_active_session",
            ComlinkError::MeetingAlreadyActive(_) => "meeting_already_active",
            ComlinkError::MeetingNotRecording(_) => "meeting_not_recording",
            ComlinkError::MeetingNotStopped(_) => "meeting_not_stopped",
            ComlinkError::MeetingExportUnavailable(_) => "meeting_export_unavailable",
            ComlinkError::MeetingExportInvalid { .. } => "meeting_export_invalid",
            ComlinkError::MeetingNotTranscribing(_) => "meeting_not_transcribing",
            ComlinkError::MeetingLifecycleBusy(_) => "meeting_lifecycle_busy",
            ComlinkError::MeetingFinalizeLaunchFailed(_) => "meeting_finalize_launch_failed",
            ComlinkError::MeetingStillTranscribing(_) => "meeting_still_transcribing",
            ComlinkError::MeetingFinalizeFailed(_) => "meeting_finalize_failed",
            ComlinkError::MeetingFinalizeFailedDetail { .. } => "meeting_finalize_failed",
            ComlinkError::McpStartDisabled => "mcp_start_disabled",
            ComlinkError::UnknownConfigKey(_) => "unknown_config_key",
            ComlinkError::MeetingChunkCleanupFailed { .. } => "meeting_chunk_cleanup_failed",
            ComlinkError::MeetingSessionUnreadable { .. } => "meeting_session_unreadable",
            ComlinkError::NotFound { .. } => "not_found",
            ComlinkError::ModeNotFound(_) => "mode_not_found",
            ComlinkError::Io(_) => "io",
            ComlinkError::Json(_) => "json",
        }
    }

    /// The message shown to the user.
    pub open spec fn text(self) -> Seq<char> {
        match self {
            ComlinkError::InputMissing(x) => "input file does not exist: "@ + x@,
            ComlinkError::DependencyMissing(x) => "dependency not found: "@ + x@,
            ComlinkError::DependencyPathMissing { name, path } => "dependency path does not exist: "@ + name@ + "="@ + path@,
            ComlinkError::DependencyNotExecutable { name, path } => "dependency path is not executable: "@ + name@ + "="@ + path@,
            ComlinkError::ModelMissing => "model path is required; set COMLINK_WHISPER_MODEL or pass --model"@,
            ComlinkError::ModelPathMissing(x) => "model path does not exist: "@ + x@,
            ComlinkError::FfmpegFailed(x) => "ffmpeg failed to normalize audio: "@ + x@,
            ComlinkError::AudioCaptureFailed(x) => "audio capture failed: "@ + x@,
            ComlinkError::WhisperFailed(x) => "whisper.cpp failed: "@ + x@,
            ComlinkError::EmptyTranscript => "whisper.cpp produced no transcript text"@,
            ComlinkError::NoSpeechNearSilent { mean_dbfs, device } => "no speech transcribed: captured audio from device "@ + device@ + " was near-silent ("@ + mean_dbfs@ + " dBFS avg) - likely wrong input device, muted mic, or missing microphone permission; set COMLINK_RECORD_DEVICE or run `comlink doctor --probe-mic`"@,
            ComlinkError::RecordingTooShort { duration_ms, min_duration_ms } => "recording too short or no speech detected: captured "@ + decimal(duration_ms as nat) + " ms, minimum is "@ + decimal(min_duration_ms as nat) + " ms"@,
            ComlinkError::ClipboardFailed(x) => "clipboard delivery failed: "@ + x@,
            ComlinkError::ConfigHomeMissing(x) => "config home environment variable is required: "@ + x@,
            ComlinkError::InvalidConfigValue { name, value } => "invalid config value "@ + name@ + "="@ + value@,
            ComlinkError::ConfigParse { path, source } => "failed to parse config file "@ + path@ + ": "@ + source@,
            ComlinkError::Storage(x) => "storage error: "@ + x@,
            ComlinkError::HistoryNotFound(x) => "history session not found: "@ + x@,
            ComlinkError::MeetingSessionNotFound(x) => "meeting session not found: "@ + x@,
            ComlinkError::MeetingNoActiveSession => "no active meeting session"@,
            ComlinkError::MeetingAlreadyActive(x) => "meeting session is already recording: "@ + x@,
            ComlinkError::MeetingNotRecording(x) => "meeting session is not recording: "@ + x@,
            ComlinkError::MeetingNotStopped(x) => "meeting session has not stopped yet: "@ + x@,
            ComlinkError::MeetingExportUnavailable(x) => "meeting export is not available: "@ + x@,
            ComlinkError::MeetingExportInvalid { id, path, reason } => "meeting export at "@ + path@ + " is invalid ("@ + reason@ + "); fix or remove the invalid export at "@ + path@ + ", then rerun `comlink meet finalize "@ + id@ + "`"@,
            ComlinkError::MeetingNotTranscribing(x) => "meeting session is not awaiting finalize (still recording): "@ + x@,
            ComlinkError::MeetingLifecycleBusy(x) => "meeting session is busy; another comlink process holds its lifecycle lock: "@ + x@,
            ComlinkError::MeetingFinalizeLaunchFailed(x) => "meeting finalizer could not be launched: "@ + x@,
            ComlinkError::MeetingStillTranscribing(x) => "meeting session is still transcribing: "@ + x@ + "; run `comlink meet status "@ + x@ + "`"@,
            ComlinkError::MeetingFinalizeFailed(x) => "meeting session finalize failed: "@ + x@ + "; run `comlink meet status "@ + x@ + "`, then `comlink meet finalize "@ + x@ + "` to retry"@,
            ComlinkError::MeetingFinalizeFailedDetail { id, error } => "meeting session finalize failed: "@ + id@ + ": "@ + error@ + "; run `comlink meet status "@ + id@ + "`, then `comlink meet finalize "@ + id@ + "` to retry"@,
            ComlinkError::McpStartDisabled => "meeting_start is disabled for MCP clients (mcp.allow_start=false); enable it with `comlink config set mcp.allow_start true`"@,
            ComlinkError::UnknownConfigKey(x) => "unknown config key: "@ + x@ + "; supported keys: mcp.allow_start"@,
            ComlinkError::MeetingChunkCleanupFailed { id, reason } => "meeting audio chunk cleanup failed for "@ + id@ + " (retention.audio=false): "@ + reason@ + "; rerun `comlink meet finalize "@ + id@ + "`"@,
            ComlinkError::MeetingSessionUnreadable { id, path, reason } => "meeting session "@ + id@ + " is unreadable: "@ + reason@ + "; inspect or remove "@ + path@,
            ComlinkError::NotFound { kind, name } => kind@ + " not found: "@ + name@,
            ComlinkError::ModeNotFound(x) => "text mode not found: "@ + x@,
            ComlinkError::Io(x) => "io error: "@ + x@,
            ComlinkError::Json(x) => "json serialization failed: "@ + x@,
        }
    }

    /// The message shown to the user.
    pub fn message(&self) -> (r: String)
        ensures
            r@ == self.text(),
    {
        match self {
            ComlinkError::InputMissing(x) => cat2("input file does not exist: ", x.as_str()),
            ComlinkError::DependencyMissing(x) => cat2("dependency not found: ", x),
            ComlinkError::DependencyPathMissing { name, path } => cat4("dependency path does not exist: ", name, "=", path.as_str()),
            ComlinkError::DependencyNotExecutable { name, path } => cat4("dependency path is not executable: ", name, "=", path.as_str()),
            ComlinkError::ModelMissing => "model path is required; set COMLINK_WHISPER_MODEL or pass --model".to_owned(),
            ComlinkError::ModelPathMissing(x) => cat2("model path does not exist: ", x.as_str()),
            ComlinkError::FfmpegFailed(x) => cat2("ffmpeg failed to normalize audio: ", x.as_str()),
            ComlinkError::AudioCaptureFailed(x) => cat2("audio capture failed: ", x.as_str()),
            ComlinkError::WhisperFailed(x) => cat2("whisper.cpp failed: ", x.as_str()),
            ComlinkError::EmptyTranscript => "whisper.cpp produced no transcript text".to_owned(),
            ComlinkError::NoSpeechNearSilent { mean_dbfs, device } => cat5("no speech transcribed: captured audio from device ", device.as_str(), " was near-silent (", mean_dbfs.as_str(), " dBFS avg) - likely wrong input device, muted mic, or missing microphone permission; set COMLINK_RECORD_DEVICE or run `comlink doctor --probe-mic`"),
            ComlinkError::RecordingTooShort { duration_ms, min_duration_ms } => cat5("recording too short or no speech detected: captured ", u64_text(*duration_ms).as_str(), " ms, minimum is ", u64_text(*min_duration_ms).as_str(), " ms"),
            ComlinkError::ClipboardFailed(x) => cat2("clipboard delivery failed: ", x.as_str()),
            ComlinkError::ConfigHomeMissing(x) => cat2("config home environment variable is required: ", x),
            ComlinkError::InvalidConfigValue { name, value } => cat4("invalid config value ", name, "=", value.as_str()),
            ComlinkError::ConfigParse { path, source } => cat4("failed to parse config file ", path.as_str(), ": ", source.as_str()),
            ComlinkError::Storage(x) => cat2("storage error: ", x.as_str()),
            ComlinkError::HistoryNotFound(x) => cat2("history session not found: ", x.as_str()),
            ComlinkError::MeetingSessionNotFound(x) => cat2("meeting session not found: ", x.as_str()),
            ComlinkError::MeetingNoActiveSession => "no active meeting session".to_owned(),
            ComlinkError::MeetingAlreadyActive(x) => cat2("meeting session is already recording: ", x.as_str()),
            ComlinkError::MeetingNotRecording(x) => cat2("meeting session is not recording: ", x.as_str()),
            ComlinkError::MeetingNotStopped(x) => cat2("meeting session has not stopped yet: ", x.as_str()),
            ComlinkError::MeetingExportUnavailable(x) => cat2("meeting export is not available: ", x.as_str()),
            ComlinkError::MeetingExportInvalid { id, path, reason } => {
                let mut s = cat8("meeting export at ", path.as_str(), " is invalid (", reason.as_str(), "); fix or remove the invalid export at ", path.as_str(), ", then rerun `comlink meet finalize ", id.as_str());
                s.append("`");
                s
            },
            ComlinkError::MeetingNotTranscribing(x) => cat2("meeting session is not awaiting finalize (still recording): ", x.as_str()),
            ComlinkError::MeetingLifecycleBusy(x) => cat2("meeting session is busy; another comlink process holds its lifecycle lock: ", x.as_str()),
            ComlinkError::MeetingFinalizeLaunchFailed(x) => cat2("meeting finalizer could not be launched: ", x.as_str()),
            ComlinkError::MeetingStillTranscribing(x) => cat5("meeting session is still transcribing: ", x.as_str(), "; run `comlink meet status ", x.as_str(), "`"),
            ComlinkError::MeetingFinalizeFailed(x) => cat7("meeting session finalize failed: ", x.as_str(), "; run `comlink meet status ", x.as_str(), "`, then `comlink meet finalize ", x.as_str(), "` to retry"),
            ComlinkError::MeetingFinalizeFailedDetail { id, error } => {
                let mut s = cat8("meeting session finalize failed: ", id.as_str(), ": ", error.as_str(), "; run `comlink meet status ", id.as_str(), "`, then `comlink meet finalize ", id.as_str());
                s.append("` to retry");
                s
            },
            ComlinkError::McpStartDisabled => "meeting_start is disabled for MCP clients (mcp.allow_start=false); enable it with `comlink config set mcp.allow_start true`".to_owned(),
            ComlinkError::UnknownConfigKey(x) => cat3("unknown config key: ", x.as_str(), "; supported keys: mcp.allow_start"),
            ComlinkError::MeetingChunkCleanupFailed { id, reason } => cat7("meeting audio chunk cleanup failed for ", id.as_str(), " (retention.audio=false): ", reason.as_str(), "; rerun `comlink meet finalize ", id.as_str(), "`"),
            ComlinkError::MeetingSessionUnreadable { id, path, reason } => cat6("meeting session ", id.as_str(), " is unreadable: ", reason.as_str(), "; inspect or remove ", path.as_str()),
            ComlinkError::NotFound { kind, name } => cat3(kind, " not found: ", name.as_str()),
            ComlinkError::ModeNotFound(x) => cat2("text mode not found: ", x.as_str()),
            ComlinkError::Io(x) => cat2("io error: ", x.as_str()),
            ComlinkError::Json(x) => cat2("json serialization failed: ", x.as_str()),
        }
    }
}

/// The condition that an identifier stands for.
spec fn condition_of_code(c: Seq<char>) -> int {

    if c == "input_missing"@ {
        0
    } else if c == "dependency_missing"@ {
        1
    } else if c == "dependency_path_missing"@ {
        2
    } else if c == "dependency_not_executable"@ {
        3
    } else if c == "model_missing"@ {
        4
    } else if c == "model_path_missing"@ {
        5
    } else if c == "ffmpeg_failed"@ {
        6
    } else if c == "audio_capture_failed"@ {
        7
    } else if c == "whisper_failed"@ {
        8
    } else if c == "empty_transcript"@ {
        9
    } else if c == "no_speech_near_silent"@ {
        10
    } else if c == "recording_too_short"@ {
        11
    } else if c == "clipboard_failed"@ {
        12
    } else if c == "config_home_missing"@ {
        13
    } else if c == "invalid_config_value"@ {
        14
    } else if c == "config_parse"@ {
        15
    } else if c == "storage"@ {
        16
    } else if c == "history_not_found"@ {
        17
    } else if c == "meeting_session_not_found"@ {
        18
    } else if c == "meeting_no_active_session"@ {
        19
    } else if c == "meeting_already_active"@ {
        20
    } else if c == "meeting_not_recording"@ {
        21
    } else if c == "meeting_not_stopped"@ {
        22
    } else if c == "meeting_export_unavailable"@ {
        23
    } else if c == "meeting_export_invalid"@ {
        24
    } else if c == "meeting_not_transcribing"@ {
        25
    } else if c == "meeting_lifecycle_busy"@ {
        26
    } else if c == "meeting_finalize_launch_failed"@ {
        27
    } else if c == "meeting_still_transcribing"@ {
        28
    } else if c == "meeting_finalize_failed"@ {
        29
    } else if c == "mcp_start_disabled"@ {
        31
    } else if c == "unknown_config_key"@ {
        32
    } else if c == "meeting_chunk_cleanup_failed"@ {
        33
    } else if c == "meeting_session_unreadable"@ {
        34
    } else if c == "not_found"@ {
        35
    } else if c == "mode_not_found"@ {
        36
    } else if c == "io"@ {
        37
    } else if c == "json"@ {
        38
    } else {
        -1
    }
}

/// The identifiers differ from one another.
proof fn lemma_codes_differ(e: ComlinkError)
    ensures
        condition_of_code(e.code()) == e.condition(),
{
    reveal_strlit("input_missing");
    reveal_strlit("dependency_missing");
    reveal_strlit("dependency_path_missing");
    reveal_strlit("dependency_not_executable");
    reveal_strlit("model_missing");
    reveal_strlit("model_path_missing");
    reveal_strlit("ffmpeg_failed");
    reveal_strlit("audio_capture_failed");
    reveal_strlit("whisper_failed");
    reveal_strlit("empty_transcript");
    reveal_strlit("no_speech_near_silent");
    reveal_strlit("recording_too_short");
    reveal_strlit("clipboard_failed");
    reveal_strlit("config_home_missing");
    reveal_strlit("invalid_config_value");
    reveal_strlit("config_parse");
    reveal_strlit("storage");
    reveal_strlit("history_not_found");
    reveal_strlit("meeting_session_not_found");
    reveal_strlit("meeting_no_active_session");
    reveal_strlit("meeting_already_active");
    reveal_strlit("meeting_not_recording");
    reveal_strlit("meeting_not_stopped");
    reveal_strlit("meeting_export_unavailable");
    reveal_strlit("meeting_export_invalid");
    reveal_strlit("meeting_not_transcribing");
    reveal_strlit("meeting_lifecycle_busy");
    reveal_strlit("meeting_finalize_launch_failed");
    reveal_strlit("meeting_still_transcribing");
    reveal_strlit("meeting_finalize_failed");
    reveal_strlit("mcp_start_disabled");
    reveal_strlit("unknown_config_key");
    reveal_strlit("meeting_chunk_cleanup_failed");
    reveal_strlit("meeting_session_unreadable");
    reveal_strlit("not_found");
    reveal_strlit("mode_not_found");
    reveal_strlit("io");
    reveal_strlit("json");
    assert("input_missing"@.len() == 13);
    assert("dependency_missing"@.len() == 18);
    assert("dependency_path_missing"@.len() == 23);
    assert("dependency_not_executable"@.len() == 25);
    assert("model_missing"@.len() == 13);
    assert("model_path_missing"@.len() == 18);
    assert("ffmpeg_failed"@.len() == 13);
    assert("audio_capture_failed"@.len() == 20);
    assert("whisper_failed"@.len() == 14);
    assert("empty_transcript"@.len() == 16);
    assert("no_speech_near_silent"@.len() == 21);
    assert("recording_too_short"@.len() == 19);
    assert("clipboard_failed"@.len() == 16);
    assert("config_home_missing"@.len() == 19);
    assert("invalid_config_value"@.len() == 20);
    assert("config_parse"@.len() == 12);
    assert("storage"@.len() == 7);
    assert("history_not_found"@.len() == 17);
    assert("meeting_session_not_found"@.len() == 25);
    assert("meeting_no_active_session"@.len() == 25);
    assert("meeting_already_active"@.len() == 22);
    assert("meeting_not_recording"@.len() == 21);
    assert("meeting_not_stopped"@.len() == 19);
    assert("meeting_export_unavailable"@.len() == 26);
    assert("meeting_export_invalid"@.len() == 22);
    assert("meeting_not_transcribing"@.len() == 24);
    assert("meeting_lifecycle_busy"@.len() == 22);
    assert("meeting_finalize_launch_failed"@.len() == 30);
    assert("meeting_still_transcribing"@.len() == 26);
    assert("meeting_finalize_failed"@.len() == 23);
    assert("mcp_start_disabled"@.len() == 18);
    assert("unknown_config_key"@.len() == 18);
    assert("meeting_chunk_cleanup_failed"@.len() == 28);
    assert("meeting_session_unreadable"@.len() == 26);
    assert("not_found"@.len() == 9);
    assert("mode_not_found"@.len() == 14);
    assert("io"@.len() == 2);
    assert("json"@.len() == 4);
    assert("audio_capture_failed"@[0] == 'a');
    assert("clipboard_failed"@[0] == 'c');
    assert("config_home_missing"@[0] == 'c');
    assert("dependency_missing"@[0] == 'd');
    assert("dependency_not_executable"@[0] == 'd');
    assert("dependency_path_missing"@[0] == 'd');
    assert("empty_transcript"@[0] == 'e');
    assert("ffmpeg_failed"@[0] == 'f');
    assert("input_missing"@[0] == 'i');
    assert("invalid_config_value"@[0] == 'i');
    assert("mcp_start_disabled"@[0] == 'm');
    assert("mcp_start_disabled"@[1] == 'c');
    assert("meeting_already_active"@[8] == 'a');
    assert("meeting_export_invalid"@[8] == 'e');
    assert("meeting_export_unavailable"@[8] == 'e');
    assert("meeting_finalize_failed"@[0] == 'm');
    assert("meeting_lifecycle_busy"@[8] == 'l');
    assert("meeting_no_active_session"@[0] == 'm');
    assert("meeting_no_active_session"@[8] == 'n');
    assert("meeting_not_recording"@[0] == 'm');
    assert("meeting_not_stopped"@[0] == 'm');
    assert("meeting_session_not_found"@[0] == 'm');
    assert("meeting_session_not_found"@[8] == 's');
    assert("meeting_session_unreadable"@[8] == 's');
    assert("meeting_session_unreadable"@[9] == 'e');
    assert("meeting_still_transcribing"@[8] == 's');
    assert("meeting_still_transcribing"@[9] == 't');
    assert("mode_not_found"@[0] == 'm');
    assert("model_missing"@[0] == 'm');
    assert("model_path_missing"@[0] == 'm');
    assert("model_path_missing"@[1] == 'o');
    assert("no_speech_near_silent"@[0] == 'n');
    assert("recording_too_short"@[0] == 'r');
    assert("unknown_config_key"@[0] == 'u');
    assert("whisper_failed"@[0] == 'w');
}

/// Failures that share an identifier describe the same condition.
pub proof fn law_codes_identify_conditions(a: ComlinkError, b: ComlinkError)
    ensures
        a.code() == b.code() <==> a.condition() == b.condition(),
{
    lemma_codes_differ(a);
    lemma_codes_differ(b);
}

} // verus!
