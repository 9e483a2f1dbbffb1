//! The health check: what each part that Comlink needs is found to be, and whether
//! that is enough to work with.
use vstd::prelude::*;

use crate::audio::{device_hint, device_label, near_silent_device_hint, DeviceHintContext};
use crate::clipboard::{ClipboardCommandState, ClipboardReport};
use crate::config::{Config, ResolvedConfig};
use crate::deps::{DependencyReport, DependencyState};
use crate::error::ComlinkError;
use crate::numbers::{decimal, u64_text};
use crate::paths::{file_name, path_file_name};
use crate::record::{DeviceSource, MicProbe, ProbeOutcome, ResolvedRecordDevice};
use crate::strings::{
    cat2, cat3, cat4, cat5, cat6, cat7, cat8, contains, copy_opt, lemma_holds, lemma_holds_within,
    lemma_pieces_stand, opt_text, str_contains, str_eq,
};
use crate::system_audio::SystemAudioReport;

verus! {

/// The layout of the report.
pub const DOCTOR_SCHEMA_VERSION: &'static str = "comlink.doctor.v1";

/// A model file smaller than this is a stub: the test models of whisper.cpp take
/// about 562 KB, the smallest real model about 31 MB. A file of just this size counts
/// as a real model.
pub const MODEL_STUB_MAX_BYTES: u64 = 10_000_000;

/// What to do about a microphone.
pub const MICROPHONE_REMEDIATION: &'static str =
    "grant Terminal microphone permission in macOS Privacy & Security; override with COMLINK_RECORD_DEVICE or record --device";

/// What the user asked for.
#[derive(Debug, Clone, Copy, PartialEq, Eq, Structural)]
pub struct DoctorOptions {
    /// Whether the microphone is tried out.
    pub probe_mic: bool,
}

/// What a model file looks like.
#[derive(Debug, PartialEq, Eq)]
pub enum ModelAssessment {
    Real,
    LooksLikeStub { reason: String },
}

/// Why a model file looks like a stub, if it does: by its name, then by its size.
pub open spec fn stub_reason(size: nat, basename: Seq<char>) -> Option<Seq<char>> {
    if contains(basename, "for-tests-"@) {
        Some(
            "file name "@ + basename + " is a whisper.cpp test model ("@ + decimal(size)
                + " bytes)"@,
        )
    } else if size < MODEL_STUB_MAX_BYTES {
        Some(
            decimal(size) + " bytes is below the "@ + decimal(MODEL_STUB_MAX_BYTES as nat)
                + " byte minimum for a real ggml model"@,
        )
    } else {
        None
    }
}

/// What a model file looks like, by its size and the last part of its path.
pub fn assess_model_file(size: u64, basename: &str) -> (r: ModelAssessment)
    ensures
        match stub_reason(size as nat, basename@) {
            Some(text) => r matches ModelAssessment::LooksLikeStub { reason } && reason@ == text,
            None => r == ModelAssessment::Real,
        },
{
    if str_contains(basename, "for-tests-") {
        return ModelAssessment::LooksLikeStub {
            reason: cat5(
                "file name ",
                basename,
                " is a whisper.cpp test model (",
                &u64_text(size),
                " bytes)",
            ),
        };
    }
    if size < MODEL_STUB_MAX_BYTES {
        return ModelAssessment::LooksLikeStub {
            reason: cat4(
                &u64_text(size),
                " bytes is below the ",
                &u64_text(MODEL_STUB_MAX_BYTES),
                " byte minimum for a real ggml model",
            ),
        };
    }
    ModelAssessment::Real
}

/// What one part is found to be.
#[derive(Debug, Clone)]
pub struct DoctorCheck {
    pub name: String,
    pub status: String,
    pub required: bool,
    pub path: Option<String>,
    pub detail: String,
    pub remediation: String,
}

/// What a check says.
pub struct CheckText {
    pub name: Seq<char>,
    pub status: Seq<char>,
    pub required: bool,
    pub path: Option<Seq<char>>,
    pub detail: Seq<char>,
    pub remediation: Seq<char>,
}

impl DoctorCheck {
    /// What the check says.
    pub open spec fn said(self) -> CheckText {
        CheckText {
            name: self.name@,
            status: self.status@,
            required: self.required,
            path: opt_text(self.path),
            detail: self.detail@,
            remediation: self.remediation@,
        }
    }
}

/// The status, the path and the detail that the state of a program comes to.
pub open spec fn dependency_verdict(state: DependencyState, detail: Seq<char>) -> (
    Seq<char>,
    Option<Seq<char>>,
    Seq<char>,
) {
    match state {
        DependencyState::Found(path) => ("ok"@, Some(path@), detail),
        DependencyState::Missing => (
            "missing"@,
            None,
            detail + " Not configured or not found on PATH."@,
        ),
        DependencyState::NotFound(path) => (
            "missing"@,
            Some(path@),
            detail + " Configured path does not exist."@,
        ),
        DependencyState::NotExecutable(path) => (
            "bad"@,
            Some(path@),
            detail + " Configured path is not executable."@,
        ),
    }
}

/// What is said of a program.
pub open spec fn dependency_said(
    name: Seq<char>,
    state: DependencyState,
    required: bool,
    detail: Seq<char>,
    remediation: Seq<char>,
) -> CheckText {
    let v = dependency_verdict(state, detail);
    CheckText { name, status: v.0, required, path: v.1, detail: v.2, remediation }
}

/// What is said of a program.
pub fn dependency_check(
    name: &str,
    state: &DependencyState,
    required: bool,
    detail: &str,
    remediation: &str,
) -> (r: DoctorCheck)
    ensures
        r.said() == dependency_said(name@, *state, required, detail@, remediation@),
{
    let (status, path, detail) = match state {
        DependencyState::Found(path) => ("ok", Some(path.clone()), detail.to_owned()),
        DependencyState::Missing => (
            "missing",
            None,
            cat2(detail, " Not configured or not found on PATH."),
        ),
        DependencyState::NotFound(path) => (
            "missing",
            Some(path.clone()),
            cat2(detail, " Configured path does not exist."),
        ),
        DependencyState::NotExecutable(path) => (
            "bad",
            Some(path.clone()),
            cat2(detail, " Configured path is not executable."),
        ),
    };
    DoctorCheck {
        name: name.to_owned(),
        status: status.to_owned(),
        required,
        path,
        detail,
        remediation: remediation.to_owned(),
    }
}

/// What is said of a clipboard command.
pub open spec fn clipboard_said(
    name: Seq<char>,
    state: ClipboardCommandState,
    required: bool,
    detail: Seq<char>,
    remediation: Seq<char>,
) -> CheckText {
    CheckText {
        name,
        status: match state {
            ClipboardCommandState::Found(_) => "ok"@,
            ClipboardCommandState::Missing(_) => "missing"@,
            ClipboardCommandState::NotExecutable(_) => "bad"@,
        },
        required,
        path: Some(state.command()@),
        detail: match state {
            ClipboardCommandState::Found(_) => detail,
            ClipboardCommandState::Missing(_) => detail + " Command was not found."@,
            ClipboardCommandState::NotExecutable(_) => detail
                + " Configured path is not executable."@,
        },
        remediation,
    }
}

/// What is said of a clipboard command.
pub fn clipboard_check(
    name: &str,
    state: &ClipboardCommandState,
    required: bool,
    detail: &str,
    remediation: &str,
) -> (r: DoctorCheck)
    ensures
        r.said() == clipboard_said(name@, *state, required, detail@, remediation@),
{
    let (status, detail) = match state {
        ClipboardCommandState::Found(_) => ("ok", detail.to_owned()),
        ClipboardCommandState::Missing(_) => ("missing", cat2(detail, " Command was not found.")),
        ClipboardCommandState::NotExecutable(_) => (
            "bad",
            cat2(detail, " Configured path is not executable."),
        ),
    };
    DoctorCheck {
        name: name.to_owned(),
        status: status.to_owned(),
        required,
        path: Some(state.path().clone()),
        detail,
        remediation: remediation.to_owned(),
    }
}

/// The last part of a path.
pub open spec fn basename_of(path: Seq<char>) -> Seq<char> {
    match file_name(path) {
        Some(name) => name,
        None => Seq::empty(),
    }
}

/// What is said of the model: as of any program, and that it looks like a stub or
/// cannot be looked at, which is a warning.
pub open spec fn model_said(state: DependencyState, size: Result<u64, String>) -> CheckText {
    let plain = dependency_said(
        "model-path"@,
        state,
        true,
        "Selected whisper.cpp ggml model file."@,
        "set COMLINK_WHISPER_MODEL or run comlink models select <name> --path <file>"@,
    );
    match state {
        DependencyState::Found(path) => match size {
            Ok(n) => match stub_reason(n as nat, basename_of(path@)) {
                Some(reason) => CheckText {
                    status: "warn"@,
                    detail: "Selected model looks like a test stub / not a real model ("@ + decimal(
                        n as nat,
                    ) + " bytes): "@ + reason
                        + ". Transcription will produce garbage or nothing."@,
                    remediation: "run `comlink models select <name> --path <real ggml model>`"@,
                    ..plain
                },
                None => plain,
            },
            Err(e) => CheckText {
                status: "warn"@,
                detail: "Selected model exists but could not read model file size: "@ + e@,
                ..plain
            },
        },
        _ => plain,
    }
}

/// What is said of the model, given the size of its file.
pub fn model_path_check(state: &DependencyState, size: &Result<u64, String>) -> (r: DoctorCheck)
    ensures
        r.said() == model_said(*state, *size),
{
    let mut check = dependency_check(
        "model-path",
        state,
        true,
        "Selected whisper.cpp ggml model file.",
        "set COMLINK_WHISPER_MODEL or run comlink models select <name> --path <file>",
    );
    if let DependencyState::Found(path) = state {
        let basename = match path_file_name(path) {
            Some(name) => name,
            None => String::new(),
        };
        match size {
            Ok(n) => {
                if let ModelAssessment::LooksLikeStub { reason } = assess_model_file(*n, &basename) {
                    check.status = "warn".to_owned();
                    check.detail = cat5(
                        "Selected model looks like a test stub / not a real model (",
                        &u64_text(*n),
                        " bytes): ",
                        &reason,
                        ". Transcription will produce garbage or nothing.",
                    );
                    check.remediation =
                        "run `comlink models select <name> --path <real ggml model>`".to_owned();
                }
            },
            Err(e) => {
                check.status = "warn".to_owned();
                check.detail = cat2(
                    "Selected model exists but could not read model file size: ",
                    e,
                );
            },
        }
    }
    check
}

/// What the microphone is.
pub open spec fn device_detail(d: ResolvedRecordDevice) -> Seq<char> {
    let label = device_label(opt_text(d.name), d.avfoundation_input@);
    match d.source {
        DeviceSource::Flag | DeviceSource::Env => "record uses FFmpeg AVFoundation input device "@
            + label + " (COMLINK_RECORD_DEVICE)"@,
        DeviceSource::SystemDefault => "record defaults to the system default input device "@
            + label,
        DeviceSource::Fallback => "record defaults to AVFoundation input device "@ + label
            + " (system default input could not be resolved)"@,
    }
}

/// What the microphone is.
pub fn microphone_device_detail(device: &ResolvedRecordDevice) -> (r: String)
    ensures
        r@ == device_detail(*device),
{
    let label = device.label();
    match device.source {
        DeviceSource::Flag | DeviceSource::Env => cat3(
            "record uses FFmpeg AVFoundation input device ",
            &label,
            " (COMLINK_RECORD_DEVICE)",
        ),
        DeviceSource::SystemDefault => cat2(
            "record defaults to the system default input device ",
            &label,
        ),
        DeviceSource::Fallback => cat3(
            "record defaults to AVFoundation input device ",
            &label,
            " (system default input could not be resolved)",
        ),
    }
}

/// What is said of a microphone that was tried out. It is never required: whatever
/// came of it, it is well or a warning.
pub open spec fn probe_said(d: ResolvedRecordDevice, outcome: ProbeOutcome) -> CheckText {
    let label = device_label(opt_text(d.name), d.avfoundation_input@);
    let (status, detail, remediation) = match outcome {
        ProbeOutcome::Level(level) => if level.near_silent {
            (
                "warn"@,
                "no signal from device "@ + label + " (mean "@ + level.mean_dbfs@ + " dBFS, peak "@
                    + level.peak_dbfs@ + " dBFS); "@ + device_detail(d),
                device_hint(opt_text(d.name), d.avfoundation_input@, None),
            )
        } else {
            (
                "ok"@,
                "live probe heard signal from device "@ + label + " (mean "@ + level.mean_dbfs@
                    + " dBFS, peak "@ + level.peak_dbfs@ + " dBFS); "@ + device_detail(d),
                MICROPHONE_REMEDIATION@,
            )
        },
        ProbeOutcome::CaptureFailed { stderr_tail } => (
            "warn"@,
            "live probe capture failed on device "@ + label + ": "@ + stderr_tail@,
            MICROPHONE_REMEDIATION@,
        ),
        ProbeOutcome::TimedOut => (
            "warn"@,
            "live probe on device "@ + label
                + " timed out and was stopped; the device may be busy or waiting on a permission prompt"@,
            MICROPHONE_REMEDIATION@,
        ),
        ProbeOutcome::Unmeasurable => (
            "warn"@,
            "live probe on device "@ + label + " produced audio that could not be measured"@,
            MICROPHONE_REMEDIATION@,
        ),
    };
    CheckText { name: "microphone"@, status, required: false, path: None, detail, remediation }
}

/// What is said of a microphone that was tried out.
pub fn microphone_probe_check(device: &ResolvedRecordDevice, outcome: ProbeOutcome) -> (r:
    DoctorCheck)
    ensures
        r.said() == probe_said(*device, outcome),
{
    let label = device.label();
    let base = microphone_device_detail(device);
    let mut status = "warn".to_owned();
    let mut remediation = MICROPHONE_REMEDIATION.to_owned();
    let detail = match outcome {
        ProbeOutcome::Level(level) => if level.near_silent {
            let name: Option<&str> = match &device.name {
                Some(name) => Some(name.as_str()),
                None => None,
            };
            remediation = near_silent_device_hint(
                DeviceHintContext {
                    selector: &device.avfoundation_input,
                    name,
                    available: None,
                },
            );
            cat8(
                "no signal from device ",
                &label,
                " (mean ",
                &level.mean_dbfs,
                " dBFS, peak ",
                &level.peak_dbfs,
                " dBFS); ",
                &base,
            )
        } else {
            status = "ok".to_owned();
            cat8(
                "live probe heard signal from device ",
                &label,
                " (mean ",
                &level.mean_dbfs,
                " dBFS, peak ",
                &level.peak_dbfs,
                " dBFS); ",
                &base,
            )
        },
        ProbeOutcome::CaptureFailed { stderr_tail } => cat4(
            "live probe capture failed on device ",
            &label,
            ": ",
            &stderr_tail,
        ),
        ProbeOutcome::TimedOut => cat3(
            "live probe on device ",
            &label,
            " timed out and was stopped; the device may be busy or waiting on a permission prompt",
        ),
        ProbeOutcome::Unmeasurable => cat3(
            "live probe on device ",
            &label,
            " produced audio that could not be measured",
        ),
    };
    DoctorCheck {
        name: "microphone".to_owned(),
        status,
        required: false,
        path: None,
        detail,
        remediation,
    }
}

/// What is said of the microphone where it is not tried out.
pub open spec fn microphone_said(device: Result<ResolvedRecordDevice, ComlinkError>) -> CheckText {
    match device {
        Ok(d) => CheckText {
            name: "microphone"@,
            status: "info"@,
            required: false,
            path: None,
            detail: device_detail(d),
            remediation: MICROPHONE_REMEDIATION@
                + "; run `comlink doctor --probe-mic` to test for signal"@,
        },
        Err(e) => CheckText {
            name: "microphone"@,
            status: "warn"@,
            required: false,
            path: None,
            detail: "record input device could not be resolved: "@ + e.text(),
            remediation: MICROPHONE_REMEDIATION@,
        },
    }
}

/// Whether `r` is what is said of the microphone, tried out or not.
pub open spec fn is_microphone_check(
    device: Result<ResolvedRecordDevice, ComlinkError>,
    options: DoctorOptions,
    has_probe: bool,
    r: DoctorCheck,
) -> bool {
    if options.probe_mic && device is Ok {
        exists|outcome: ProbeOutcome|
            #[trigger] probe_said(device->Ok_0, outcome) == r.said() && (!has_probe ==> (outcome
                matches ProbeOutcome::CaptureFailed { stderr_tail } && stderr_tail@
                == "ffmpeg is not available to run the probe"@))
    } else {
        r.said() == microphone_said(device)
    }
}

/// What is said of the microphone. It is tried out just where the user asks for it;
/// that it cannot be resolved is never a failure.
pub fn microphone_check<P: MicProbe>(
    device: Result<ResolvedRecordDevice, ComlinkError>,
    options: DoctorOptions,
    probe: Option<&P>,
) -> (r: DoctorCheck)
    ensures
        is_microphone_check(device, options, probe is Some, r),
        options.probe_mic && device is Ok && probe is Some ==> exists|name: &str, outcome: ProbeOutcome|
            name@ == device->Ok_0.avfoundation_input@ && #[trigger] call_ensures(
                P::probe,
                (probe->Some_0, name),
                outcome,
            ) && probe_said(device->Ok_0, outcome) == r.said(),
{
    let device = match device {
        Ok(device) => device,
        Err(e) => {
            return DoctorCheck {
                name: "microphone".to_owned(),
                status: "warn".to_owned(),
                required: false,
                path: None,
                detail: cat2("record input device could not be resolved: ", &e.message()),
                remediation: MICROPHONE_REMEDIATION.to_owned(),
            };
        },
    };
    if options.probe_mic {
        let outcome = match probe {
            Some(probe) => probe.probe(&device.avfoundation_input),
            None => ProbeOutcome::CaptureFailed {
                stderr_tail: "ffmpeg is not available to run the probe".to_owned(),
            },
        };
        return microphone_probe_check(&device, outcome);
    }
    DoctorCheck {
        name: "microphone".to_owned(),
        status: "info".to_owned(),
        required: false,
        path: None,
        detail: microphone_device_detail(&device),
        remediation: cat2(
            MICROPHONE_REMEDIATION,
            "; run `comlink doctor --probe-mic` to test for signal",
        ),
    }
}

/// What is known of the data directory.
#[derive(Debug, Clone, Copy, PartialEq, Eq, Structural)]
pub enum DataDirFacts {
    /// It is there.
    Present { directory: bool, readonly: bool },
    /// It is there but cannot be looked at.
    Unreadable,
    /// It is not there; the nearest directory above that is there is read-only or not.
    Absent { parent_readonly: Option<bool> },
}

/// Whether the data directory can be written to, or made.
pub open spec fn is_writable(f: DataDirFacts) -> bool {
    match f {
        DataDirFacts::Present { directory, readonly } => directory && !readonly,
        DataDirFacts::Unreadable => false,
        DataDirFacts::Absent { parent_readonly } => parent_readonly == Some(false),
    }
}

/// What is said of the data directory.
pub open spec fn data_path_said(path: Seq<char>, f: DataDirFacts) -> CheckText {
    CheckText {
        name: "data-path"@,
        status: if is_writable(f) {
            "ok"@
        } else {
            "bad"@
        },
        required: true,
        path: Some(path),
        detail: if is_writable(f) {
            "Data directory is present or can be created."@
        } else {
            "Data directory cannot be created from the current parent path."@
        },
        remediation: "set COMLINK_DATA_DIR to a writable directory"@,
    }
}

/// What is said of the data directory.
pub fn data_path_check(path: &str, facts: DataDirFacts) -> (r: DoctorCheck)
    ensures
        r.said() == data_path_said(path@, facts),
{
    let writable = match facts {
        DataDirFacts::Present { directory, readonly } => directory && !readonly,
        DataDirFacts::Unreadable => false,
        DataDirFacts::Absent { parent_readonly } => match parent_readonly {
            Some(readonly) => !readonly,
            None => false,
        },
    };
    let (status, detail) = if writable {
        ("ok", "Data directory is present or can be created.")
    } else {
        ("bad", "Data directory cannot be created from the current parent path.")
    };
    DoctorCheck {
        name: "data-path".to_owned(),
        status: status.to_owned(),
        required: true,
        path: Some(path.to_owned()),
        detail: detail.to_owned(),
        remediation: "set COMLINK_DATA_DIR to a writable directory".to_owned(),
    }
}

/// What is said of the capture of system audio.
pub open spec fn system_audio_said(s: SystemAudioReport) -> CheckText {
    CheckText {
        name: "system-audio"@,
        status: s.status@,
        required: false,
        path: opt_text(s.dependency.device_name),
        detail: s.detail@,
        remediation: s.remediation@,
    }
}

/// What is said of the capture of system audio.
pub fn system_audio_check(report: &SystemAudioReport) -> (r: DoctorCheck)
    ensures
        r.said() == system_audio_said(*report),
{
    DoctorCheck {
        name: "system-audio".to_owned(),
        status: report.status.clone(),
        required: false,
        path: copy_opt(&report.dependency.device_name),
        detail: report.detail.clone(),
        remediation: report.remediation.clone(),
    }
}

/// Whether a check stands in the way: one that is required and neither well nor a
/// warning.
pub open spec fn is_blocking(c: DoctorCheck) -> bool {
    c.required && c.status@ != "ok"@ && c.status@ != "warn"@
}

/// Whether all is well enough to work with: no check stands in the way.
pub open spec fn is_healthy(c: Seq<DoctorCheck>) -> bool {
    forall|i: int| 0 <= i < c.len() ==> !is_blocking(#[trigger] c[i])
}

/// Whether all is well enough to work with.
pub fn report_ok(checks: &[DoctorCheck]) -> (r: bool)
    ensures
        r == is_healthy(checks@),
{
    let total: usize = checks.len();
    let mut i: usize = 0;
    while i < total
        invariant
            i <= total,
            total == checks@.len(),
            forall|j: int| 0 <= j < i ==> !is_blocking(#[trigger] checks@[j]),
        decreases total - i,
    {
        let c = &checks[i];
        if c.required && !str_eq(&c.status, "ok") && !str_eq(&c.status, "warn") {
            assert(is_blocking(checks@[i as int]));
            return false;
        }
        i += 1;
    }
    true
}

/// Where things lie.
#[derive(Debug, Clone)]
pub struct DoctorPaths {
    pub home_dir: String,
    pub config_file: String,
    pub data_dir: String,
    pub database_file: String,
    pub audio_dir: String,
}

/// What is kept and who gets to see it.
#[derive(Debug, Clone)]
pub struct DoctorPrivacy {
    pub history_enabled: bool,
    pub retain_metadata: bool,
    pub retain_transcripts: bool,
    pub retain_audio: bool,
    pub local_llm: String,
    pub posture: String,
}

/// What everything is found to be.
#[derive(Debug)]
pub struct DoctorReport {
    pub schema_version: String,
    pub ok: bool,
    pub checks: Vec<DoctorCheck>,
    pub paths: DoctorPaths,
    pub privacy: DoctorPrivacy,
    pub system_audio: SystemAudioReport,
}

/// What is said of the language model.
pub open spec fn local_llm_text(c: Config) -> Seq<char> {
    if c.llm.enabled {
        "enabled; provider="@ + c.llm.provider.name() + "; endpoint="@ + c.llm.endpoint@
            + "; model="@ + (match c.llm.model {
            Some(m) => m@,
            None => "<none>"@,
        })
    } else {
        "disabled"@
    }
}

/// What is said of the language model.
pub fn local_llm(config: &Config) -> (r: String)
    ensures
        r@ == local_llm_text(*config),
{
    if !config.llm.enabled {
        return "disabled".to_owned();
    }
    let model: &str = match &config.llm.model {
        Some(m) => m.as_str(),
        None => "<none>",
    };
    cat6(
        "enabled; provider=",
        config.llm.provider.as_str(),
        "; endpoint=",
        &config.llm.endpoint,
        "; model=",
        model,
    )
}

/// What the checks say.
pub open spec fn all_said(c: Seq<DoctorCheck>) -> Seq<CheckText> {
    Seq::new(c.len(), |i: int| c[i].said())
}

/// What the checks say, but for that of the microphone, which comes last.
pub open spec fn checks_said(
    data_dir: Seq<char>,
    d: DependencyReport,
    clipboard: ClipboardReport,
    system_audio: SystemAudioReport,
    model_size: Result<u64, String>,
    data: DataDirFacts,
) -> Seq<CheckText> {
    Seq::empty().push(
        dependency_said(
            "ffmpeg"@,
            d.ffmpeg,
            true,
            "FFmpeg normalizes files and records microphone audio."@,
            "set COMLINK_FFMPEG or install ffmpeg"@,
        ),
    ).push(
        dependency_said(
            "ffprobe"@,
            d.ffprobe,
            false,
            "FFprobe improves duration and audio metadata detection."@,
            "optional but recommended; set COMLINK_FFPROBE or install ffprobe"@,
        ),
    ).push(
        dependency_said(
            "asr"@,
            d.whisper_cpp,
            true,
            "Local ASR uses whisper.cpp through whisper-cli."@,
            "set COMLINK_WHISPER_CPP to whisper-cli or install whisper.cpp"@,
        ),
    ).push(model_said(d.whisper_model, model_size)).push(
        clipboard_said(
            "clipboard-copy"@,
            clipboard.copy,
            true,
            "Clipboard delivery uses pbcopy or COMLINK_PBCOPY."@,
            "install macOS pbcopy support or set COMLINK_PBCOPY to an executable test adapter"@,
        ),
    ).push(
        clipboard_said(
            "clipboard-read"@,
            clipboard.read,
            false,
            "Clipboard restore uses pbpaste or COMLINK_PBPASTE."@,
            "optional; install macOS pbpaste support or set COMLINK_PBPASTE"@,
        ),
    ).push(data_path_said(data_dir, data)).push(system_audio_said(system_audio))
}

/// Adds a check.
fn push_check(checks: &mut Vec<DoctorCheck>, check: DoctorCheck)
    ensures
        final(checks)@ == old(checks)@.push(check),
        all_said(final(checks)@) == all_said(old(checks)@).push(check.said()),
{
    let ghost before = checks@;
    checks.push(check);
    assert(all_said(checks@) =~= all_said(before).push(check.said()));
}

/// What everything is found to be.
pub fn build_report_with(
    resolved: &ResolvedConfig,
    dependencies: &DependencyReport,
    clipboard: &ClipboardReport,
    system_audio: SystemAudioReport,
    model_size: &Result<u64, String>,
    data_dir: DataDirFacts,
    microphone: DoctorCheck,
) -> (r: DoctorReport)
    ensures
        r.schema_version@ == DOCTOR_SCHEMA_VERSION@,
        r.ok == is_healthy(r.checks@),
        all_said(r.checks@) == checks_said(
            resolved.paths.data_dir@,
            *dependencies,
            *clipboard,
            system_audio,
            *model_size,
            data_dir,
        ).push(microphone.said()),
        r.paths.home_dir@ == resolved.paths.home_dir@,
        r.paths.config_file@ == resolved.paths.config_file@,
        r.paths.data_dir@ == resolved.paths.data_dir@,
        r.paths.database_file@ == resolved.paths.database_file@,
        r.paths.audio_dir@ == resolved.paths.audio_dir@,
        r.privacy.history_enabled == resolved.config.history_enabled,
        r.privacy.retain_metadata == resolved.config.retention.metadata,
        r.privacy.retain_transcripts == resolved.config.retention.transcripts,
        r.privacy.retain_audio == resolved.config.retention.audio,
        r.privacy.local_llm@ == local_llm_text(resolved.config),
        r.privacy.posture@
            == "local-first; ASR runs through local whisper.cpp; LLM rewrite is opt-in"@,
        r.system_audio == system_audio,
{
    let mut checks: Vec<DoctorCheck> = Vec::new();
    assert(all_said(checks@) =~= Seq::empty());
    push_check(
        &mut checks,
        dependency_check(
            "ffmpeg",
            &dependencies.ffmpeg,
            true,
            "FFmpeg normalizes files and records microphone audio.",
            "set COMLINK_FFMPEG or install ffmpeg",
        ),
    );
    push_check(
        &mut checks,
        dependency_check(
            "ffprobe",
            &dependencies.ffprobe,
            false,
            "FFprobe improves duration and audio metadata detection.",
            "optional but recommended; set COMLINK_FFPROBE or install ffprobe",
        ),
    );
    push_check(
        &mut checks,
        dependency_check(
            "asr",
            &dependencies.whisper_cpp,
            true,
            "Local ASR uses whisper.cpp through whisper-cli.",
            "set COMLINK_WHISPER_CPP to whisper-cli or install whisper.cpp",
        ),
    );
    push_check(&mut checks, model_path_check(&dependencies.whisper_model, model_size));
    push_check(
        &mut checks,
        clipboard_check(
            "clipboard-copy",
            &clipboard.copy,
            true,
            "Clipboard delivery uses pbcopy or COMLINK_PBCOPY.",
            "install macOS pbcopy support or set COMLINK_PBCOPY to an executable test adapter",
        ),
    );
    push_check(
        &mut checks,
        clipboard_check(
            "clipboard-read",
            &clipboard.read,
            false,
            "Clipboard restore uses pbpaste or COMLINK_PBPASTE.",
            "optional; install macOS pbpaste support or set COMLINK_PBPASTE",
        ),
    );
    push_check(&mut checks, data_path_check(&resolved.paths.data_dir, data_dir));
    push_check(&mut checks, system_audio_check(&system_audio));
    push_check(&mut checks, microphone);
    let ok = report_ok(&checks);
    DoctorReport {
        schema_version: DOCTOR_SCHEMA_VERSION.to_owned(),
        ok,
        checks,
        paths: DoctorPaths {
            home_dir: resolved.paths.home_dir.clone(),
            config_file: resolved.paths.config_file.clone(),
            data_dir: resolved.paths.data_dir.clone(),
            database_file: resolved.paths.database_file.clone(),
            audio_dir: resolved.paths.audio_dir.clone(),
        },
        privacy: DoctorPrivacy {
            history_enabled: resolved.config.history_enabled,
            retain_metadata: resolved.config.retention.metadata,
            retain_transcripts: resolved.config.retention.transcripts,
            retain_audio: resolved.config.retention.audio,
            local_llm: local_llm(&resolved.config),
            posture: "local-first; ASR runs through local whisper.cpp; LLM rewrite is opt-in".to_owned(),
        },
        system_audio,
    }
}

/// Warnings, and anything that is not required, never make the report unhealthy.
pub proof fn law_warnings_never_fail(c: Seq<DoctorCheck>)
    requires
        forall|i: int|
            0 <= i < c.len() ==> !(#[trigger] c[i]).required || c[i].status@ == "ok"@ || c[i].status@
                == "warn"@,
    ensures
        is_healthy(c),
{
}

/// Whatever comes of trying out the microphone, it does not make the report
/// unhealthy.
pub proof fn law_microphone_never_fails(
    device: Result<ResolvedRecordDevice, ComlinkError>,
    options: DoctorOptions,
    has_probe: bool,
    r: DoctorCheck,
)
    requires
        is_microphone_check(device, options, has_probe, r),
    ensures
        !r.required,
        !is_blocking(r),
{
    assert(r.said().required == r.required);
}

/// The mark of a status.
pub open spec fn marker(status: Seq<char>) -> Seq<char> {
    if status == "ok"@ {
        "[ok]  "@
    } else if status == "info"@ {
        "[info]"@
    } else if status == "warn"@ {
        "[warn]"@
    } else if status == "bad"@ {
        "[bad] "@
    } else {
        "[miss]"@
    }
}

/// The line on a check, and its detail where it is a warning.
pub open spec fn check_lines(c: DoctorCheck) -> Seq<char> {
    let line = match c.path {
        Some(path) => "  "@ + marker(c.status@) + " "@ + c.name@ + ": "@ + path@ + " ("@
            + c.remediation@ + ")\n"@,
        None => "  "@ + marker(c.status@) + " "@ + c.name@ + ": "@ + c.remediation@ + "\n"@,
    };
    if c.status@ == "warn"@ {
        line + ("         "@ + c.detail@ + "\n"@)
    } else {
        line
    }
}

/// The lines on the first `n` checks.
pub open spec fn checks_text(c: Seq<DoctorCheck>, n: int) -> Seq<char>
    decreases n,
{
    if n <= 0 {
        Seq::empty()
    } else {
        checks_text(c, n - 1) + check_lines(c[n - 1])
    }
}

/// The report in words.
pub open spec fn report_text(r: DoctorReport) -> Seq<char> {
    "Comlink doctor\n  offline core: enabled\n"@ + checks_text(r.checks@, r.checks@.len() as int)
        + "  data_dir: "@ + r.paths.data_dir@ + "\n  system_audio_permissions: microphone="@
        + r.system_audio.permissions.microphone.status@ + "; routing="@
        + r.system_audio.permissions.system_audio_routing.status@ + "\n  privacy: "@
        + r.privacy.posture@ + "\n"@
}

/// The mark of a status.
fn marker_of(status: &str) -> (r: &'static str)
    ensures
        r@ == marker(status@),
{
    if str_eq(status, "ok") {
        "[ok]  "
    } else if str_eq(status, "info") {
        "[info]"
    } else if str_eq(status, "warn") {
        "[warn]"
    } else if str_eq(status, "bad") {
        "[bad] "
    } else {
        "[miss]"
    }
}

/// The line on a check, and its detail where it is a warning.
fn render_check(check: &DoctorCheck) -> (r: String)
    ensures
        r@ == check_lines(*check),
{
    let marker = marker_of(&check.status);
    let mut line = match &check.path {
        Some(path) => {
            let mut line = cat8(
                "  ",
                marker,
                " ",
                &check.name,
                ": ",
                path,
                " (",
                &check.remediation,
            );
            line.append(")\n");
            line
        },
        None => cat7("  ", marker, " ", &check.name, ": ", &check.remediation, "\n"),
    };
    if str_eq(&check.status, "warn") {
        line.append(&cat3("         ", &check.detail, "\n"));
    }
    line
}

/// The report in words.
pub fn render_report(report: &DoctorReport) -> (r: String)
    ensures
        r@ == report_text(*report),
{
    let mut checks = String::new();
    let mut i: usize = 0;
    while i < report.checks.len()
        invariant
            i <= report.checks@.len(),
            checks@ == checks_text(report.checks@, i as int),
        decreases report.checks@.len() - i,
    {
        checks.append(&render_check(&report.checks[i]));
        i += 1;
    }
    let mut r = cat8(
        "Comlink doctor\n  offline core: enabled\n",
        &checks,
        "  data_dir: ",
        &report.paths.data_dir,
        "\n  system_audio_permissions: microphone=",
        &report.system_audio.permissions.microphone.status,
        "; routing=",
        &report.system_audio.permissions.system_audio_routing.status,
    );
    r.append("\n  privacy: ");
    r.append(&report.privacy.posture);
    r.append("\n");
    r
}

/// All is well just where every check that is required is well or a warning.
pub proof fn law_health_is_what_is_required(c: Seq<DoctorCheck>)
    ensures
        is_healthy(c) <==> forall|i: int|
            0 <= i < c.len() ==> (#[trigger] c[i]).required ==> c[i].status@ == "ok"@ || c[i].status@
                == "warn"@,
{
    if is_healthy(c) {
        assert forall|i: int| 0 <= i < c.len() implies ((#[trigger] c[i]).required ==> c[i].status@
            == "ok"@ || c[i].status@ == "warn"@) by {
            assert(!is_blocking(c[i]));
        }
    }
}

/// A program is well just where it was found, and then its path is told; ffmpeg, whisper.cpp
/// and the model are required.
pub proof fn law_programs_are_well_where_found(
    data_dir: Seq<char>,
    d: DependencyReport,
    clipboard: ClipboardReport,
    system_audio: SystemAudioReport,
    size: Result<u64, String>,
    data: DataDirFacts,
)
    ensures
        ({
            let c = checks_said(data_dir, d, clipboard, system_audio, size, data);
            &&& c[0].name == "ffmpeg"@ && c[0].required && (c[0].status == "ok"@ <==> d.ffmpeg is Found)
            &&& c[1].name == "ffprobe"@ && !c[1].required && (c[1].status == "ok"@ <==> d.ffprobe
                is Found)
            &&& c[2].name == "asr"@ && c[2].required && (c[2].status == "ok"@ <==> d.whisper_cpp
                is Found)
            &&& c[3].name == "model-path"@ && c[3].required && (!(d.whisper_model is Found)
                ==> c[3].status != "ok"@ && c[3].status != "warn"@)
            &&& d.ffmpeg matches DependencyState::Found(path) ==> c[0].path == Some(path@)
            &&& d.whisper_cpp matches DependencyState::Found(path) ==> c[2].path == Some(path@)
            &&& c[4].required && (c[4].status == "ok"@ <==> clipboard.copy is Found)
            &&& !c[5].required
            &&& c[6].required && (c[6].status == "ok"@ <==> match data {
                DataDirFacts::Present { directory, readonly } => directory && !readonly,
                DataDirFacts::Unreadable => false,
                DataDirFacts::Absent { parent_readonly } => parent_readonly == Some(false),
            })
            &&& !c[7].required
        }),
{
    reveal_strlit("ok");
    reveal_strlit("warn");
    reveal_strlit("missing");
    reveal_strlit("bad");
    assert("ok"@.len() == 2 && "warn"@.len() == 4 && "missing"@.len() == 7 && "bad"@.len() == 3);
}

/// A model file looks like a stub just where its name is that of a test model, or it is
/// smaller than a real one.
pub proof fn law_stub_models(size: nat, name: Seq<char>)
    ensures
        stub_reason(size, name) is Some <==> contains(name, "for-tests-"@) || size
            < MODEL_STUB_MAX_BYTES,
{
}

/// What is said of a microphone that was tried out: it is well just where a signal was heard
/// that is not near-silent, and it is named.
pub proof fn law_tried_microphones(d: ResolvedRecordDevice, outcome: ProbeOutcome)
    ensures
        probe_said(d, outcome).status == "ok"@ <==> (outcome matches ProbeOutcome::Level(level)
            && !level.near_silent),
        probe_said(d, outcome).status == "ok"@ || probe_said(d, outcome).status == "warn"@,
        !probe_said(d, outcome).required,
        contains(probe_said(d, outcome).detail, device_label(opt_text(d.name), d.avfoundation_input@)),
{
    reveal_strlit("ok");
    reveal_strlit("warn");
    assert("ok"@.len() == 2 && "warn"@.len() == 4);
    let label = device_label(opt_text(d.name), d.avfoundation_input@);
    let t = probe_said(d, outcome).detail;
    let head = match outcome {
        ProbeOutcome::Level(level) => if level.near_silent {
            "no signal from device "@
        } else {
            "live probe heard signal from device "@
        },
        ProbeOutcome::CaptureFailed { .. } => "live probe capture failed on device "@,
        ProbeOutcome::TimedOut => "live probe on device "@,
        ProbeOutcome::Unmeasurable => "live probe on device "@,
    };
    let rest = t.skip((head + label).len() as int);
    assert(t.take((head + label).len() as int) =~= head + label);
    lemma_holds(head, label, rest);
    assert(t =~= head + label + rest);
}

/// The report in words holds the lines on each check.
pub proof fn law_every_check_is_printed(r: DoctorReport, k: int)
    requires
        0 <= k < r.checks@.len(),
    ensures
        contains(report_text(r), check_lines(r.checks@[k])),
        contains(check_lines(r.checks@[k]), r.checks@[k].name@ + ": "@),
{
    lemma_check_stands(r.checks@, k);
    lemma_report_holds(r, check_lines(r.checks@[k]));
    lemma_check_is_named(r.checks@[k]);
}

/// The lines on each check stand among those on all.
proof fn lemma_check_stands(c: Seq<DoctorCheck>, k: int)
    requires
        0 <= k < c.len(),
    ensures
        contains(checks_text(c, c.len() as int), check_lines(c[k])),
{
    let n = c.len() as int;
    let text = |m: int| checks_text(c, m);
    let piece = |j: int| check_lines(c[j]);
    assert forall|m: int| 0 < m <= n implies #[trigger] text(m) == text(m - 1) + piece(m - 1) by {}
    lemma_pieces_stand(text, piece, n, k);
    assert(text(n) == checks_text(c, n) && piece(k) == check_lines(c[k]));
}

/// The report holds what the lines on its checks hold.
proof fn lemma_report_holds(r: DoctorReport, x: Seq<char>)
    requires
        contains(checks_text(r.checks@, r.checks@.len() as int), x),
    ensures
        contains(report_text(r), x),
{
    let head = "Comlink doctor\n  offline core: enabled\n"@;
    let t = report_text(r);
    let l = checks_text(r.checks@, r.checks@.len() as int);
    let rest = t.skip((head + l).len() as int);
    assert(t.take((head + l).len() as int) =~= head + l);
    lemma_holds_within(head, l, rest, x);
    assert(t =~= head + l + rest);
}

/// The lines on a check name it.
proof fn lemma_check_is_named(c: DoctorCheck)
    ensures
        contains(check_lines(c), c.name@ + ": "@),
{
    let x = c.name@ + ": "@;
    let line = check_lines(c);
    let a = "  "@ + marker(c.status@) + " "@;
    let b = line.skip((a + x).len() as int);
    assert(line.take((a + x).len() as int) =~= a + x);
    lemma_holds(a, x, b);
    assert(line =~= a + x + b);
}

} // verus!
