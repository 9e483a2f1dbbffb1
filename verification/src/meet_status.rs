//! What is told of meetings: whether one is under way and healthy, which one an
//! export or a transcript is read of, and the list of all.
use vstd::prelude::*;

use crate::audio::{near_silent_warning, near_silent_warning_message};
use crate::config::ResolvedConfig;
use crate::error::ComlinkError;
use crate::llm::{find_json_text, json_text_under};
use crate::meet::{
    MeetSourceMode, MeetingSessionState, MeetingSourceLabel, MeetingStatus, MEETING_SCHEMA_VERSION,
};
use crate::meet_export::{push_if, text_if, MeetingAudioLevel, MeetingExport};
use crate::meet_recorders::MeetRecorderHealth;
use crate::meet_service::{
    elapsed, elapsed_since, finalize_log_path, finalizer_command_needle, finalizer_needle,
    FINALIZE_LOG_FILE,
};
use crate::meet_store::{MeetingExportKind, SkippedSession, SESSION_FILE};
use crate::ordering::{str_le, text_le};
use crate::paths::{file_name, join_path, joined, path_file_name};
use crate::record::{is_same_process, process_identity_is_running, ProcessFacts};
use crate::strings::{cat2, cat3, cat4, cat5, contains, copy_opt, lemma_holds, opt_text, texts};

verus! {

/// Whether a finalizer runs.
#[derive(Debug, Clone, Copy, PartialEq, Eq, Structural)]
pub struct MeetFinalizerHealth {
    pub pid: u32,
    pub alive: bool,
}

/// What is told of a session, or that there is none.
#[derive(Debug)]
pub struct MeetStatusReport {
    pub schema_version: &'static str,
    pub session_id: Option<String>,
    /// The session's status, or `none`.
    pub status: &'static str,
    pub elapsed_ms: Option<u64>,
    pub recorders: Vec<MeetRecorderHealth>,
    pub finalizer: Option<MeetFinalizerHealth>,
    pub chunk_count: usize,
    pub audio_level: Option<MeetingAudioLevel>,
    pub warnings: Vec<String>,
    pub stale: bool,
    pub stale_reason: Option<String>,
    pub error: Option<String>,
    /// The finalizer's log, where there is one.
    pub finalize_log: Option<String>,
}

/// Why a session that claims to be under way is not: nothing records it, or nothing
/// transcribes it, and nobody is changing it.
pub open spec fn stale_text(
    status: MeetingStatus,
    any_recorder_alive: bool,
    lifecycle_locked: bool,
    finalizer_alive: bool,
    id: Seq<char>,
) -> Option<Seq<char>> {
    if lifecycle_locked {
        None
    } else if status == MeetingStatus::Recording && !any_recorder_alive {
        Some(
            "no recorder process is running for recording session "@ + id
                + "; run `comlink meet stop "@ + id + "`"@,
        )
    } else if status == MeetingStatus::Transcribing && !finalizer_alive {
        Some(
            "finalizer for "@ + id + " is no longer running; rerun `comlink meet finalize "@ + id
                + "`"@,
        )
    } else {
        None
    }
}

/// Whether a session claims to be under way though nothing works on it, and why.
pub fn classify_stale(
    status: MeetingStatus,
    any_recorder_alive: bool,
    lifecycle_locked: bool,
    finalizer_alive: bool,
    session_id: &str,
) -> (r: (bool, Option<String>))
    ensures
        opt_text(r.1) == stale_text(
            status,
            any_recorder_alive,
            lifecycle_locked,
            finalizer_alive,
            session_id@,
        ),
        r.0 == (r.1 is Some),
{
    if lifecycle_locked {
        return (false, None);
    }
    match status {
        MeetingStatus::Recording => if !any_recorder_alive {
            (
                true,
                Some(
                    cat5(
                        "no recorder process is running for recording session ",
                        session_id,
                        "; run `comlink meet stop ",
                        session_id,
                        "`",
                    ),
                ),
            )
        } else {
            (false, None)
        },
        MeetingStatus::Transcribing => if !finalizer_alive {
            (
                true,
                Some(
                    cat5(
                        "finalizer for ",
                        session_id,
                        " is no longer running; rerun `comlink meet finalize ",
                        session_id,
                        "`",
                    ),
                ),
            )
        } else {
            (false, None)
        },
        _ => (false, None),
    }
}

/// Only a session that is recording or being transcribed can be stale.
pub proof fn law_finished_sessions_are_never_stale(
    status: MeetingStatus,
    recorder: bool,
    locked: bool,
    finalizer: bool,
    id: Seq<char>,
)
    requires
        status == MeetingStatus::Stopped || status == MeetingStatus::Failed || locked,
    ensures
        stale_text(status, recorder, locked, finalizer, id) is None,
{
}

/// The number of a stream's newest chunk that is complete, if it has one. The newest
/// of a stream that is being recorded may be half written.
pub open spec fn complete_index(
    files: (MeetingSourceLabel, Vec<String>),
    live: Seq<MeetingSourceLabel>,
) -> Option<int> {
    let count = files.1@.len() - if live.contains(files.0) {
        1int
    } else {
        0int
    };
    if count < 1 {
        None
    } else {
        Some(count - 1)
    }
}

/// Whether stream `j` has the newer complete chunk than stream `i`, or one as new:
/// by its number, then by the name of its label.
pub open spec fn not_newer(
    files: Seq<(MeetingSourceLabel, Vec<String>)>,
    live: Seq<MeetingSourceLabel>,
    i: int,
    j: int,
) -> bool {
    let a = complete_index(files[i], live)->Some_0;
    let b = complete_index(files[j], live)->Some_0;
    a < b || a == b && text_le(files[i].0.name(), files[j].0.name())
}

/// The stream with the newest complete chunk among the first `n`.
pub open spec fn newest_stream(
    files: Seq<(MeetingSourceLabel, Vec<String>)>,
    live: Seq<MeetingSourceLabel>,
    n: int,
) -> Option<int>
    decreases n,
{
    if n <= 0 {
        None
    } else {
        match (newest_stream(files, live, n - 1), complete_index(files[n - 1], live)) {
            (best, None) => best,
            (None, Some(_)) => Some(n - 1),
            (Some(i), Some(_)) => Some(
                if not_newer(files, live, i, n - 1) {
                    n - 1
                } else {
                    i
                },
            ),
        }
    }
}

/// Whether a label is listed.
fn label_is_listed(labels: &[MeetingSourceLabel], label: MeetingSourceLabel) -> (r: bool)
    ensures
        r == labels@.contains(label),
{
    let total: usize = labels.len();
    let mut i: usize = 0;
    while i < total
        invariant
            i <= total,
            total == labels@.len(),
            forall|j: int| 0 <= j < i ==> labels@[j] != label,
        decreases total - i,
    {
        if labels[i] == label {
            return true;
        }
        i += 1;
    }
    false
}

/// The newest chunk of audio that is safe to read.
pub fn latest_completed_chunk(
    chunk_files: &[(MeetingSourceLabel, Vec<String>)],
    live_labels: &[MeetingSourceLabel],
) -> (r: Option<String>)
    ensures
        match newest_stream(chunk_files@, live_labels@, chunk_files@.len() as int) {
            Some(i) => r matches Some(path) && complete_index(chunk_files@[i], live_labels@)
                matches Some(k) && path@ == chunk_files@[i].1@[k]@,
            None => r is None,
        },
{
    let total: usize = chunk_files.len();
    let mut best: Option<(usize, usize)> = None;
    let mut i: usize = 0;
    while i < total
        invariant
            i <= total,
            total == chunk_files@.len(),
            match newest_stream(chunk_files@, live_labels@, i as int) {
                Some(j) => best matches Some((at, k)) && at == j && 0 <= j < i && complete_index(
                    chunk_files@[j],
                    live_labels@,
                ) == Some(k as int) && k < chunk_files@[j].1@.len(),
                None => best is None,
            },
        decreases total - i,
    {
        let files = &chunk_files[i];
        assert(*files == chunk_files@[i as int]);
        let live = label_is_listed(live_labels, files.0);
        let count: usize = files.1.len();
        let least: usize = if live {
            2
        } else {
            1
        };
        if count >= least {
            let index: usize = count - least;
            match best {
                Some((at, k)) => {
                    let other = &chunk_files[at];
                    if k < index || k == index && str_le(other.0.as_str(), files.0.as_str()) {
                        best = Some((i, index));
                    }
                },
                None => {
                    best = Some((i, index));
                },
            }
        }
        i += 1;
    }
    match best {
        Some((at, k)) => Some(chunk_files[at].1[k].clone()),
        None => None,
    }
}

/// The newest chunk of a stream that is being recorded is never read.
pub proof fn law_live_chunk_is_never_read(
    files: (MeetingSourceLabel, Vec<String>),
    live: Seq<MeetingSourceLabel>,
)
    requires
        live.contains(files.0),
    ensures
        complete_index(files, live) matches Some(k) ==> k < files.1@.len() - 1,
{
}

/// The labels of the streams that are being recorded, in their sequence.
pub open spec fn live_among(h: Seq<MeetRecorderHealth>, n: int) -> Seq<MeetingSourceLabel>
    decreases n,
{
    if n <= 0 {
        Seq::empty()
    } else if h[n - 1].alive {
        live_among(h, n - 1).push(h[n - 1].source_label)
    } else {
        live_among(h, n - 1)
    }
}

/// The labels of the streams that are being recorded.
pub fn live_labels(recorders: &Vec<MeetRecorderHealth>) -> (r: Vec<MeetingSourceLabel>)
    ensures
        r@ == live_among(recorders@, recorders@.len() as int),
{
    let mut r: Vec<MeetingSourceLabel> = Vec::new();
    let mut i: usize = 0;
    while i < recorders.len()
        invariant
            i <= recorders@.len(),
            r@ == live_among(recorders@, i as int),
        decreases recorders@.len() - i,
    {
        if recorders[i].alive {
            r.push(recorders[i].source_label);
        }
        i += 1;
    }
    r
}

/// How many chunks the first `n` streams have.
pub open spec fn chunk_total(files: Seq<(MeetingSourceLabel, Vec<String>)>, n: int) -> int
    decreases n,
{
    if n <= 0 {
        0
    } else {
        chunk_total(files, n - 1) + files[n - 1].1@.len()
    }
}

/// How many chunks streams have, as far as that can be counted.
pub open spec fn counted_chunks(files: Seq<(MeetingSourceLabel, Vec<String>)>) -> int {
    let total = chunk_total(files, files.len() as int);
    if total > usize::MAX {
        usize::MAX as int
    } else {
        total
    }
}

/// How many chunks a session has.
pub fn session_chunk_count(files: &[(MeetingSourceLabel, Vec<String>)]) -> (r: usize)
    ensures
        r == counted_chunks(files@),
{
    let total: usize = files.len();
    let mut r: usize = 0;
    let mut i: usize = 0;
    while i < total
        invariant
            i <= total,
            total == files@.len(),
            r == if chunk_total(files@, i as int) > usize::MAX {
                usize::MAX as int
            } else {
                chunk_total(files@, i as int)
            },
            chunk_total(files@, i as int) >= 0,
        decreases total - i,
    {
        r = r.saturating_add(files[i].1.len());
        i += 1;
    }
    r
}

/// What is found out about a session.
#[derive(Debug)]
pub struct StatusFacts {
    pub recorders: Vec<MeetRecorderHealth>,
    /// What the system says of the finalizer's process.
    pub finalizer: Option<ProcessFacts>,
    /// Whether the session is being changed.
    pub locked: Result<bool, ComlinkError>,
    pub log_present: bool,
    pub chunk_files: Result<Vec<(MeetingSourceLabel, Vec<String>)>, ComlinkError>,
    /// The level of the newest chunk that is complete.
    pub chunk_level: Option<MeetingAudioLevel>,
    /// The level that the session's valid export has.
    pub exported_level: Option<MeetingAudioLevel>,
}

/// Whether a session's finalizer runs.
pub open spec fn finalizer_runs(session: MeetingSessionState, facts: Option<ProcessFacts>) -> bool {
    session.finalizer matches Some(f) && facts matches Some(p) && is_same_process(
        f.pid,
        opt_text(f.process_started_at),
        Some(finalizer_needle(session.session_id@)),
        p,
    )
}

/// Whether a stream is being recorded.
pub open spec fn any_alive(h: Seq<MeetRecorderHealth>) -> bool {
    exists|i: int| 0 <= i < h.len() && (#[trigger] h[i]).alive
}

/// Why a session is stale, with the log that says more.
pub open spec fn stale_report(session: MeetingSessionState, facts: StatusFacts, locked: bool) -> Option<
    Seq<char>,
> {
    let reason = stale_text(
        session.status,
        any_alive(facts.recorders@),
        locked,
        finalizer_runs(session, facts.finalizer),
        session.session_id@,
    );
    match reason {
        Some(text) => Some(
            if facts.log_present && session.status == MeetingStatus::Transcribing {
                text + ("; see "@ + joined(session.session_dir@, FINALIZE_LOG_FILE@))
            } else {
                text
            },
        ),
        None => None,
    }
}

/// The warning on a session whose finalize failed.
pub open spec fn failed_warning(session: MeetingSessionState, log: Option<Seq<char>>) -> Seq<char> {
    "finalize failed: "@ + (match session.error {
        Some(e) => e@,
        None => "unknown error"@,
    }) + (match log {
        Some(path) => "; see "@ + path,
        None => Seq::empty(),
    }) + "; rerun `comlink meet finalize "@ + session.session_id@ + "`"@
}

/// The warning on a session whose finalize failed.
pub fn failed_session_warning(session: &MeetingSessionState, finalize_log: &Option<String>) -> (r:
    String)
    ensures
        r@ == failed_warning(*session, opt_text(*finalize_log)),
{
    let error: &str = match &session.error {
        Some(e) => e.as_str(),
        None => "unknown error",
    };
    let see_log = match finalize_log {
        Some(log) => cat2("; see ", log),
        None => String::new(),
    };
    let mut r = cat4("finalize failed: ", error, &see_log, "; rerun `comlink meet finalize ");
    r.append(&session.session_id);
    r.append("`");
    r
}

/// The level that is told of a session: that of its newest complete chunk, or for a
/// stopped one that of its export.
pub open spec fn reported_level(session: MeetingSessionState, facts: StatusFacts) -> Option<
    MeetingAudioLevel,
> {
    if facts.chunk_level is None && session.status == MeetingStatus::Stopped {
        facts.exported_level
    } else {
        facts.chunk_level
    }
}

/// Whether `r` is what is told of a session.
pub open spec fn is_status_report(
    session: MeetingSessionState,
    facts: StatusFacts,
    locked: bool,
    chunk_count: int,
    now_ms: i64,
    r: MeetStatusReport,
) -> bool {
    let log = if facts.log_present {
        Some(joined(session.session_dir@, FINALIZE_LOG_FILE@))
    } else {
        None
    };
    let stale = stale_report(session, facts, locked);
    let level = reported_level(session, facts);
    &&& r.schema_version@ == MEETING_SCHEMA_VERSION@
    &&& opt_text(r.session_id) == Some(session.session_id@)
    &&& r.status@ == session.status.name()
    &&& r.elapsed_ms matches Some(ms) && ms == elapsed(
        now_ms as int,
        session.started_at_ms as int,
    )
    &&& r.recorders == facts.recorders
    &&& match session.finalizer {
        Some(f) => r.finalizer == Some(
            MeetFinalizerHealth { pid: f.pid, alive: finalizer_runs(session, facts.finalizer) },
        ),
        None => r.finalizer is None,
    }
    &&& r.chunk_count == chunk_count
    &&& r.audio_level == level
    &&& texts(r.warnings@) == (match level {
        Some(l) => text_if(l.near_silent, near_silent_warning(l.mean_dbfs@)),
        None => Seq::empty(),
    }) + (match stale {
        Some(text) => seq![text],
        None => Seq::empty(),
    }) + text_if(session.status == MeetingStatus::Failed, failed_warning(session, log))
    &&& r.stale == (stale is Some)
    &&& opt_text(r.stale_reason) == stale
    &&& opt_text(r.error) == opt_text(session.error)
    &&& opt_text(r.finalize_log) == log
}

/// Whether a stream is being recorded.
fn find_alive(recorders: &Vec<MeetRecorderHealth>) -> (r: bool)
    ensures
        r == any_alive(recorders@),
{
    let mut i: usize = 0;
    while i < recorders.len()
        invariant
            i <= recorders@.len(),
            forall|j: int| 0 <= j < i ==> !(#[trigger] recorders@[j]).alive,
        decreases recorders@.len() - i,
    {
        if recorders[i].alive {
            return true;
        }
        i += 1;
    }
    false
}

/// Whether a session's finalizer runs.
fn find_finalizer(session: &MeetingSessionState, facts: &Option<ProcessFacts>) -> (r: Option<
    MeetFinalizerHealth,
>)
    ensures
        match session.finalizer {
            Some(f) => r == Some(
                MeetFinalizerHealth { pid: f.pid, alive: finalizer_runs(*session, *facts) },
            ),
            None => r is None && !finalizer_runs(*session, *facts),
        },
{
    match &session.finalizer {
        Some(f) => {
            let needle = finalizer_command_needle(&session.session_id);
            let alive = match facts {
                Some(p) => process_identity_is_running(f, Some(needle.as_str()), p),
                None => false,
            };
            Some(MeetFinalizerHealth { pid: f.pid, alive })
        },
        None => None,
    }
}

/// What is told of a session. That its lock or its chunks cannot be read is an
/// error.
pub fn session_status_report(session: &MeetingSessionState, facts: StatusFacts, now_ms: i64) -> (r:
    Result<MeetStatusReport, ComlinkError>)
    ensures
        match (facts.locked, facts.chunk_files) {
            (Err(e), _) => r == Err::<MeetStatusReport, ComlinkError>(e),
            (Ok(_), Err(e)) => r == Err::<MeetStatusReport, ComlinkError>(e),
            (Ok(locked), Ok(files)) => r matches Ok(report) && is_status_report(
                *session,
                facts,
                locked,
                counted_chunks(files@),
                now_ms,
                report,
            ),
        },
{
    let ghost given = facts;
    let locked = match facts.locked {
        Ok(locked) => locked,
        Err(e) => return Err(e),
    };
    let chunk_count = match facts.chunk_files {
        Ok(files) => session_chunk_count(&files),
        Err(e) => return Err(e),
    };
    let finalizer = find_finalizer(session, &facts.finalizer);
    let finalizer_alive = match &finalizer {
        Some(health) => health.alive,
        None => false,
    };
    let finalize_log = if facts.log_present {
        Some(finalize_log_path(session))
    } else {
        None
    };
    let (stale, reason) = classify_stale(
        session.status,
        find_alive(&facts.recorders),
        locked,
        finalizer_alive,
        &session.session_id,
    );
    let stale_reason = match reason {
        Some(mut text) => {
            if let Some(log) = &finalize_log {
                if session.status == MeetingStatus::Transcribing {
                    text.append(&cat2("; see ", log));
                }
            }
            Some(text)
        },
        None => None,
    };
    let audio_level = match facts.chunk_level {
        Some(level) => Some(level),
        None => if session.status == MeetingStatus::Stopped {
            facts.exported_level
        } else {
            None
        },
    };
    let mut warnings: Vec<String> = Vec::new();
    assert(texts(warnings@) =~= Seq::empty());
    if let Some(level) = &audio_level {
        push_if(
            &mut warnings,
            level.near_silent,
            &near_silent_warning_message(&level.mean_dbfs),
        );
        assert(texts(warnings@) =~= text_if(
            level.near_silent,
            near_silent_warning(level.mean_dbfs@),
        ));
    }
    let ghost first = texts(warnings@);
    if let Some(text) = &stale_reason {
        push_if(&mut warnings, true, text);
    } else {
        assert(first + Seq::<Seq<char>>::empty() =~= first);
    }
    push_if(
        &mut warnings,
        session.status == MeetingStatus::Failed,
        &failed_session_warning(session, &finalize_log),
    );
    Ok(
        MeetStatusReport {
            schema_version: MEETING_SCHEMA_VERSION,
            session_id: Some(session.session_id.clone()),
            status: session.status.as_str(),
            elapsed_ms: Some(elapsed_since(session.started_at_ms, now_ms)),
            recorders: facts.recorders,
            finalizer,
            chunk_count,
            audio_level,
            warnings,
            stale,
            stale_reason,
            error: copy_opt(&session.error),
            finalize_log,
        },
    )
}

/// What is told where there is no session to tell of.
pub fn no_session_report() -> (r: MeetStatusReport)
    ensures
        r.schema_version@ == MEETING_SCHEMA_VERSION@,
        r.session_id is None,
        r.status@ == "none"@,
        r.elapsed_ms is None,
        r.recorders@.len() == 0,
        r.finalizer is None,
        r.chunk_count == 0,
        r.audio_level is None,
        r.warnings@.len() == 0,
        !r.stale,
        r.stale_reason is None,
        r.error is None,
        r.finalize_log is None,
{
    MeetStatusReport {
        schema_version: MEETING_SCHEMA_VERSION,
        session_id: None,
        status: "none",
        elapsed_ms: None,
        recorders: Vec::new(),
        finalizer: None,
        chunk_count: 0,
        audio_level: None,
        warnings: Vec::new(),
        stale: false,
        stale_reason: None,
        error: None,
        finalize_log: None,
    }
}

/// Whether `r` is a session that was read for a report: a session file that is there
/// and cannot be read is told as such.
pub open spec fn is_read_for_status(
    root: Seq<char>,
    id: Seq<char>,
    read: Result<MeetingSessionState, ComlinkError>,
    r: Result<MeetingSessionState, ComlinkError>,
) -> bool {
    match read {
        Ok(_) => r == read,
        Err(ComlinkError::MeetingSessionNotFound(_)) => r == read,
        Err(e) => r matches Err(ComlinkError::MeetingSessionUnreadable { id: name, path, reason })
            && name@ == id && path@ == joined(joined(root, id), SESSION_FILE@) && reason@ == e.text(),
    }
}

/// A session that was read for a report.
pub fn read_session_for_status(
    root: &str,
    id: &str,
    read: Result<MeetingSessionState, ComlinkError>,
) -> (r: Result<MeetingSessionState, ComlinkError>)
    ensures
        is_read_for_status(root@, id@, read, r),
{
    match read {
        Ok(session) => Ok(session),
        Err(ComlinkError::MeetingSessionNotFound(name)) => Err(
            ComlinkError::MeetingSessionNotFound(name),
        ),
        Err(e) => Err(
            ComlinkError::MeetingSessionUnreadable {
                id: id.to_owned(),
                path: join_path(&join_path(root, id), SESSION_FILE),
                reason: e.message(),
            },
        ),
    }
}

/// A directory that was skipped, and whether there is a session file in it.
#[derive(Debug)]
pub struct SkippedDir {
    pub skipped: SkippedSession,
    pub has_file: bool,
}

/// The number of the first skipped directory with a session file.
pub open spec fn first_unreadable(s: Seq<SkippedDir>) -> Option<int>
    decreases s.len(),
{
    if s.len() == 0 {
        None
    } else {
        match first_unreadable(s.drop_last()) {
            Some(i) => Some(i),
            None => if s.last().has_file {
                Some(s.len() - 1)
            } else {
                None
            },
        }
    }
}

/// The number of the first session that one of two statuses has.
pub open spec fn first_of(s: Seq<MeetingSessionState>, a: MeetingStatus, b: MeetingStatus) -> Option<
    int,
>
    decreases s.len(),
{
    if s.len() == 0 {
        None
    } else {
        match first_of(s.drop_last(), a, b) {
            Some(i) => Some(i),
            None => if s.last().status == a || s.last().status == b {
                Some(s.len() - 1)
            } else {
                None
            },
        }
    }
}

/// Whether `e` tells of a session that cannot be read.
pub open spec fn is_unreadable_error(s: SkippedSession, e: ComlinkError) -> bool {
    e matches ComlinkError::MeetingSessionUnreadable { id, path, reason } && id@ == (match file_name(
        s.dir@,
    ) {
        Some(name) => name,
        None => Seq::empty(),
    }) && path@ == joined(s.dir@, SESSION_FILE@) && reason@ == s.reason@
}

/// Whether `r` is the session that a report is about where none is named: the one
/// being recorded; else the newest that is being transcribed; else the newest that
/// failed, unless a newer one is stopped. A session that cannot be read is an error
/// rather than none, as its status is not known.
pub open spec fn is_default_session(
    active: Option<Result<MeetingSessionState, ComlinkError>>,
    sessions: Seq<MeetingSessionState>,
    skipped: Seq<SkippedDir>,
    r: Result<Option<MeetingSessionState>, ComlinkError>,
) -> bool {
    match active {
        Some(Ok(session)) if session.status == MeetingStatus::Recording => r == Ok::<
            Option<MeetingSessionState>,
            ComlinkError,
        >(Some(session)),
        Some(Err(e)) if !(e is MeetingSessionNotFound) => r == Err::<
            Option<MeetingSessionState>,
            ComlinkError,
        >(e),
        _ => match first_of(sessions, MeetingStatus::Transcribing, MeetingStatus::Transcribing) {
            Some(i) => r == Ok::<Option<MeetingSessionState>, ComlinkError>(Some(sessions[i])),
            None => match first_unreadable(skipped) {
                Some(i) => r matches Err(e) && is_unreadable_error(skipped[i].skipped, e),
                None => match first_of(sessions, MeetingStatus::Stopped, MeetingStatus::Failed) {
                    Some(i) if sessions[i].status == MeetingStatus::Failed => r == Ok::<
                        Option<MeetingSessionState>,
                        ComlinkError,
                    >(Some(sessions[i])),
                    _ => r == Ok::<Option<MeetingSessionState>, ComlinkError>(None),
                },
            },
        },
    }
}

/// The number of the first session that one of two statuses has.
fn find_first_of(sessions: &Vec<MeetingSessionState>, a: MeetingStatus, b: MeetingStatus) -> (r:
    Option<usize>)
    ensures
        match first_of(sessions@, a, b) {
            Some(i) => r matches Some(k) && k == i && 0 <= i < sessions@.len(),
            None => r is None,
        },
{
    let mut i: usize = 0;
    while i < sessions.len()
        invariant
            i <= sessions@.len(),
            first_of(sessions@.take(i as int), a, b) is None,
        decreases sessions@.len() - i,
    {
        assert(sessions@.take(i + 1).drop_last() =~= sessions@.take(i as int));
        if sessions[i].status == a || sessions[i].status == b {
            proof {
                lemma_first_of_stays(sessions@, a, b, i + 1);
            }
            return Some(i);
        }
        i += 1;
    }
    assert(sessions@.take(sessions@.len() as int) =~= sessions@);
    None
}

/// The first session found among some stays the first among more.
proof fn lemma_first_of_stays(
    s: Seq<MeetingSessionState>,
    a: MeetingStatus,
    b: MeetingStatus,
    n: int,
)
    requires
        0 <= n <= s.len(),
        first_of(s.take(n), a, b) is Some,
    ensures
        first_of(s, a, b) == first_of(s.take(n), a, b),
    decreases s.len() - n,
{
    if n < s.len() {
        assert(s.take(n + 1).drop_last() =~= s.take(n));
        lemma_first_of_stays(s, a, b, n + 1);
    } else {
        assert(s.take(n) =~= s);
    }
}

/// What the first match of two statuses is.
proof fn lemma_first_of(s: Seq<MeetingSessionState>, a: MeetingStatus, b: MeetingStatus)
    ensures
        match first_of(s, a, b) {
            Some(i) => 0 <= i < s.len() && (s[i].status == a || s[i].status == b) && forall|j: int|
                0 <= j < i ==> (#[trigger] s[j]).status != a && s[j].status != b,
            None => forall|j: int|
                0 <= j < s.len() ==> (#[trigger] s[j]).status != a && s[j].status != b,
        },
    decreases s.len(),
{
    if s.len() > 0 {
        let t = s.drop_last();
        lemma_first_of(t, a, b);
        assert(forall|j: int| 0 <= j < t.len() ==> t[j] == #[trigger] s[j]);
    }
}

/// The number of the first skipped directory with a session file.
fn find_unreadable(skipped: &Vec<SkippedDir>) -> (r: Option<usize>)
    ensures
        match first_unreadable(skipped@) {
            Some(i) => r matches Some(k) && k == i && 0 <= i < skipped@.len(),
            None => r is None,
        },
{
    let mut r: Option<usize> = None;
    let mut i: usize = 0;
    while i < skipped.len()
        invariant
            i <= skipped@.len(),
            match first_unreadable(skipped@.take(i as int)) {
                Some(j) => r matches Some(k) && k == j && 0 <= j < i,
                None => r is None,
            },
        decreases skipped@.len() - i,
    {
        assert(skipped@.take(i + 1).drop_last() =~= skipped@.take(i as int));
        if r.is_none() && skipped[i].has_file {
            r = Some(i);
        }
        i += 1;
    }
    assert(skipped@.take(skipped@.len() as int) =~= skipped@);
    r
}

/// The session that a report is about where none is named.
pub fn resolve_default_status_session(
    active: Option<Result<MeetingSessionState, ComlinkError>>,
    sessions: Vec<MeetingSessionState>,
    skipped: Vec<SkippedDir>,
) -> (r: Result<Option<MeetingSessionState>, ComlinkError>)
    ensures
        is_default_session(active, sessions@, skipped@, r),
{
    match active {
        Some(Ok(session)) => {
            if session.status == MeetingStatus::Recording {
                return Ok(Some(session));
            }
        },
        Some(Err(e)) => {
            match e {
                ComlinkError::MeetingSessionNotFound(_) => {},
                other => return Err(other),
            }
        },
        None => {},
    }
    let mut sessions = sessions;
    if let Some(i) = find_first_of(
        &sessions,
        MeetingStatus::Transcribing,
        MeetingStatus::Transcribing,
    ) {
        return Ok(Some(sessions.remove(i)));
    }
    if let Some(i) = find_unreadable(&skipped) {
        let s = &skipped[i].skipped;
        return Err(
            ComlinkError::MeetingSessionUnreadable {
                id: match path_file_name(&s.dir) {
                    Some(name) => name,
                    None => String::new(),
                },
                path: join_path(&s.dir, SESSION_FILE),
                reason: s.reason.clone(),
            },
        );
    }
    if let Some(i) = find_first_of(&sessions, MeetingStatus::Stopped, MeetingStatus::Failed) {
        if sessions[i].status == MeetingStatus::Failed {
            return Ok(Some(sessions.remove(i)));
        }
    }
    Ok(None)
}

/// A report on no named session is never silent about a failed one that nothing
/// newer has finished: there is a session to tell of, or an error.
pub proof fn law_newest_failure_is_told(
    active: Option<Result<MeetingSessionState, ComlinkError>>,
    sessions: Seq<MeetingSessionState>,
    skipped: Seq<SkippedDir>,
    r: Result<Option<MeetingSessionState>, ComlinkError>,
    i: int,
)
    requires
        is_default_session(active, sessions, skipped, r),
        0 <= i < sessions.len(),
        sessions[i].status == MeetingStatus::Failed,
        forall|j: int|
            0 <= j < i ==> (#[trigger] sessions[j]).status != MeetingStatus::Stopped,
    ensures
        !(r matches Ok(None)),
{
    lemma_first_of(sessions, MeetingStatus::Stopped, MeetingStatus::Failed);
    lemma_first_of(sessions, MeetingStatus::Transcribing, MeetingStatus::Transcribing);
}

/// The number of the first session that is not recording.
pub open spec fn first_past(s: Seq<MeetingSessionState>) -> Option<int>
    decreases s.len(),
{
    if s.len() == 0 {
        None
    } else {
        match first_past(s.drop_last()) {
            Some(i) => Some(i),
            None => if s.last().status != MeetingStatus::Recording {
                Some(s.len() - 1)
            } else {
                None
            },
        }
    }
}

/// Whether `r` is the session that an export or a transcript is read of: the one
/// named; else the newest that is not recording, which has to be stopped.
pub open spec fn is_export_session(
    id: Option<Seq<char>>,
    sessions: Seq<MeetingSessionState>,
    active: Option<Seq<char>>,
    r: Result<String, ComlinkError>,
) -> bool {
    match id {
        Some(id) => r matches Ok(name) && name@ == id,
        None => match first_past(sessions) {
            Some(i) => match sessions[i].status {
                MeetingStatus::Transcribing => r matches Err(
                    ComlinkError::MeetingStillTranscribing(name),
                ) && name@ == sessions[i].session_id@,
                MeetingStatus::Failed => r matches Err(ComlinkError::MeetingFinalizeFailed(name))
                    && name@ == sessions[i].session_id@,
                _ => r matches Ok(name) && name@ == sessions[i].session_id@,
            },
            None => match active {
                Some(id) => r matches Err(ComlinkError::MeetingNotStopped(name)) && name@ == id,
                None => r == Err::<String, ComlinkError>(ComlinkError::MeetingNoActiveSession),
            },
        },
    }
}

/// The session that an export or a transcript is read of. Where none is named and
/// the newest is still being transcribed or failed, that is an error rather than a
/// fallback to an older meeting.
pub fn resolve_export_session_id(
    id: Option<String>,
    sessions: &Vec<MeetingSessionState>,
    active: Option<String>,
) -> (r: Result<String, ComlinkError>)
    ensures
        is_export_session(opt_text(id), sessions@, opt_text(active), r),
{
    if let Some(id) = id {
        return Ok(id);
    }
    let mut past: Option<usize> = None;
    let mut i: usize = 0;
    while i < sessions.len()
        invariant
            i <= sessions@.len(),
            match first_past(sessions@.take(i as int)) {
                Some(j) => past matches Some(k) && k == j && 0 <= j < i,
                None => past is None,
            },
        decreases sessions@.len() - i,
    {
        assert(sessions@.take(i + 1).drop_last() =~= sessions@.take(i as int));
        if past.is_none() && sessions[i].status != MeetingStatus::Recording {
            past = Some(i);
        }
        i += 1;
    }
    assert(sessions@.take(sessions@.len() as int) =~= sessions@);
    match past {
        Some(k) => {
            let id = sessions[k].session_id.clone();
            match sessions[k].status {
                MeetingStatus::Transcribing => Err(ComlinkError::MeetingStillTranscribing(id)),
                MeetingStatus::Failed => Err(ComlinkError::MeetingFinalizeFailed(id)),
                _ => Ok(id),
            }
        },
        None => match active {
            Some(id) => Err(ComlinkError::MeetingNotStopped(id)),
            None => Err(ComlinkError::MeetingNoActiveSession),
        },
    }
}

/// The transcript that is read where no session is named is that of the newest
/// meeting that is not being recorded: every session listed before it is recording.
pub proof fn law_export_never_falls_back(
    sessions: Seq<MeetingSessionState>,
    active: Option<Seq<char>>,
    r: Result<String, ComlinkError>,
)
    requires
        is_export_session(None, sessions, active, r),
        r is Ok,
    ensures
        first_past(sessions) matches Some(i) && 0 <= i < sessions.len() && r->Ok_0@
            == sessions[i].session_id@ && sessions[i].status == MeetingStatus::Stopped && forall|
            j: int,
        |
            0 <= j < i ==> (#[trigger] sessions[j]).status == MeetingStatus::Recording,
{
    lemma_first_past(sessions);
}

/// What the first session that is not recording is.
proof fn lemma_first_past(s: Seq<MeetingSessionState>)
    ensures
        match first_past(s) {
            Some(i) => 0 <= i < s.len() && s[i].status != MeetingStatus::Recording && forall|j: int|
                0 <= j < i ==> (#[trigger] s[j]).status == MeetingStatus::Recording,
            None => forall|j: int|
                0 <= j < s.len() ==> (#[trigger] s[j]).status == MeetingStatus::Recording,
        },
    decreases s.len(),
{
    if s.len() > 0 {
        let t = s.drop_last();
        lemma_first_past(t);
        assert(forall|j: int| 0 <= j < t.len() ==> t[j] == #[trigger] s[j]);
    }
}

/// A stopped meeting's transcript, and what is needed to judge it.
#[derive(Debug)]
pub struct TranscriptResult {
    pub schema_version: &'static str,
    pub session_id: String,
    pub status: &'static str,
    /// `md` or `json`.
    pub format: &'static str,
    /// The Markdown export, or the text of the JSON export.
    pub content: String,
    /// Whether the transcript was kept; where it was not, the export holds no text
    /// by design.
    pub transcript_retained: bool,
    pub warnings: Vec<String>,
    pub audio_level: Option<MeetingAudioLevel>,
}

/// An error, or a placeholder where none was recorded.
pub open spec fn or_unknown(error: Option<String>) -> Seq<char> {
    match error {
        Some(e) => e@,
        None => "unknown error"@,
    }
}

/// The session that a transcript is read of, given the one that an export is read
/// of and, where its finalize failed, the error that it recorded.
pub fn transcript_target(resolved: Result<String, ComlinkError>, recorded: Option<String>) -> (r:
    Result<String, ComlinkError>)
    ensures
        match resolved {
            Err(ComlinkError::MeetingFinalizeFailed(name)) => r matches Err(
                ComlinkError::MeetingFinalizeFailedDetail { id, error },
            ) && id == name && error@ == or_unknown(recorded),
            _ => r == resolved,
        },
{
    match resolved {
        Err(ComlinkError::MeetingFinalizeFailed(id)) => Err(
            ComlinkError::MeetingFinalizeFailedDetail {
                id,
                error: match recorded {
                    Some(error) => error,
                    None => "unknown error".to_owned(),
                },
            },
        ),
        Err(e) => Err(e),
        Ok(id) => Ok(id),
    }
}

/// Whether `r` is the transcript that an export and its text make.
pub open spec fn is_transcript(
    id: String,
    kind: MeetingExportKind,
    export: MeetingExport,
    content: String,
    r: TranscriptResult,
) -> bool {
    &&& r.schema_version@ == MEETING_SCHEMA_VERSION@
    &&& r.session_id == id
    &&& r.status@ == "stopped"@
    &&& r.format@ == match kind {
        MeetingExportKind::Markdown => "md"@,
        MeetingExportKind::Json => "json"@,
    }
    &&& r.content == content
    &&& r.transcript_retained == export.retention.transcripts
    &&& r.warnings == export.warnings
    &&& r.audio_level == export.audio_level
}

/// Whether `r` is what reading a session's transcript gives. A session that is not
/// stopped is an error that names its state; what stands beside the text comes from
/// the valid JSON export, so without one there is no transcript.
pub open spec fn is_transcript_outcome(
    id: String,
    session: MeetingSessionState,
    kind: MeetingExportKind,
    export: Result<MeetingExport, ComlinkError>,
    content: Result<String, ComlinkError>,
    json_error: Option<Seq<char>>,
    r: Result<TranscriptResult, ComlinkError>,
) -> bool {
    match session.status {
        MeetingStatus::Recording => r == Err::<TranscriptResult, ComlinkError>(
            ComlinkError::MeetingNotStopped(id),
        ),
        MeetingStatus::Transcribing => r == Err::<TranscriptResult, ComlinkError>(
            ComlinkError::MeetingStillTranscribing(id),
        ),
        MeetingStatus::Failed => r matches Err(
            ComlinkError::MeetingFinalizeFailedDetail { id: name, error },
        ) && name == id && error@ == or_unknown(session.error),
        MeetingStatus::Stopped => match (export, content) {
            (Err(e), _) => r == Err::<TranscriptResult, ComlinkError>(e),
            (Ok(_), Err(e)) => r == Err::<TranscriptResult, ComlinkError>(e),
            (Ok(export), Ok(text)) => if kind == MeetingExportKind::Json && json_error is Some {
                r matches Err(ComlinkError::MeetingExportUnavailable(path)) && path@
                    == session.json_export_path@ + " ("@ + json_error->Some_0 + ")"@
            } else {
                r matches Ok(t) && is_transcript(id, kind, export, text, t)
            },
        },
    }
}

/// A session's transcript, given its export, the text of the export in the form
/// asked for, and what is wrong with that text as JSON, if anything.
pub fn transcript_result(
    id: String,
    session: &MeetingSessionState,
    kind: MeetingExportKind,
    export: Result<MeetingExport, ComlinkError>,
    content: Result<String, ComlinkError>,
    json_error: Option<String>,
) -> (r: Result<TranscriptResult, ComlinkError>)
    ensures
        is_transcript_outcome(id, *session, kind, export, content, opt_text(json_error), r),
{
    match session.status {
        MeetingStatus::Recording => return Err(ComlinkError::MeetingNotStopped(id)),
        MeetingStatus::Transcribing => return Err(ComlinkError::MeetingStillTranscribing(id)),
        MeetingStatus::Failed => {
            return Err(
                ComlinkError::MeetingFinalizeFailedDetail {
                    id,
                    error: match &session.error {
                        Some(error) => error.clone(),
                        None => "unknown error".to_owned(),
                    },
                },
            );
        },
        MeetingStatus::Stopped => {},
    }
    let export = match export {
        Ok(export) => export,
        Err(e) => return Err(e),
    };
    let content = match content {
        Ok(content) => content,
        Err(e) => return Err(e),
    };
    let format: &'static str = match kind {
        MeetingExportKind::Markdown => "md",
        MeetingExportKind::Json => {
            if let Some(error) = json_error {
                return Err(
                    ComlinkError::MeetingExportUnavailable(
                        cat4(&session.json_export_path, " (", &error, ")"),
                    ),
                );
            }
            "json"
        },
    };
    Ok(
        TranscriptResult {
            schema_version: MEETING_SCHEMA_VERSION,
            session_id: id,
            status: "stopped",
            format,
            content,
            transcript_retained: export.retention.transcripts,
            warnings: export.warnings,
            audio_level: export.audio_level,
        },
    )
}

/// What is wrong with a text as JSON, if anything.
pub open spec fn json_fault(content: Result<String, ComlinkError>) -> Option<Seq<char>> {
    match content {
        Ok(text) => match json_text_under(text@, "schema_version"@) {
            Err(m) => Some(m),
            Ok(_) => None,
        },
        Err(_) => None,
    }
}

/// A session's transcript, given its export and the text of the export in the form
/// asked for.
pub fn transcript(
    id: String,
    session: &MeetingSessionState,
    kind: MeetingExportKind,
    export: Result<MeetingExport, ComlinkError>,
    content: Result<String, ComlinkError>,
) -> (r: Result<TranscriptResult, ComlinkError>)
    ensures
        is_transcript_outcome(id, *session, kind, export, content, json_fault(content), r),
{
    let json_error = match &content {
        Ok(text) => match find_json_text(text, "schema_version") {
            Ok(_) => None,
            Err(m) => Some(m),
        },
        Err(_) => None,
    };
    transcript_result(id, session, kind, export, content, json_error)
}

/// A session in a list.
#[derive(Debug)]
pub struct MeetSessionSummary {
    pub session_id: String,
    pub status: &'static str,
    pub started_at_ms: i64,
    pub stopped_at_ms: Option<i64>,
    pub duration_ms: Option<u64>,
    pub segment_count: usize,
    pub source_mode: MeetSourceMode,
}

/// All sessions, and the directories that could not be read.
#[derive(Debug)]
pub struct MeetSessionList {
    pub sessions: Vec<MeetSessionSummary>,
    pub skipped: Vec<SkippedSession>,
}

/// Whether `r` sums a session up.
pub open spec fn is_summary(s: MeetingSessionState, r: MeetSessionSummary) -> bool {
    &&& r.session_id == s.session_id
    &&& r.status@ == s.status.name()
    &&& r.started_at_ms == s.started_at_ms
    &&& r.stopped_at_ms == s.stopped_at_ms
    &&& r.duration_ms == s.duration_ms
    &&& r.segment_count == s.segment_count
    &&& r.source_mode == s.source.mode
}

/// All sessions in the sequence in which they are listed.
pub fn list(sessions: Vec<MeetingSessionState>, skipped: Vec<SkippedSession>) -> (r: MeetSessionList)
    ensures
        r.sessions@.len() == sessions@.len(),
        forall|i: int|
            0 <= i < sessions@.len() ==> is_summary(sessions@[i], #[trigger] r.sessions@[i]),
        r.skipped == skipped,
{
    let ghost all = sessions@;
    let mut r: Vec<MeetSessionSummary> = Vec::new();
    for s in it: sessions
        invariant
            it.seq() == all,
            r@.len() == it.index(),
            forall|i: int| 0 <= i < it.index() ==> is_summary(all[i], #[trigger] r@[i]),
    {
        r.push(
            MeetSessionSummary {
                status: s.status.as_str(),
                started_at_ms: s.started_at_ms,
                stopped_at_ms: s.stopped_at_ms,
                duration_ms: s.duration_ms,
                segment_count: s.segment_count,
                source_mode: s.source.mode,
                session_id: s.session_id,
            },
        );
    }
    MeetSessionList { sessions: r, skipped }
}

/// What the local tool server does with the user's data.
#[derive(Debug, Clone)]
pub struct McpPrivacy {
    pub transport: &'static str,
    pub network_listener: bool,
    pub allow_start: bool,
    pub transcripts_sent_to_calling_model: bool,
    pub note: String,
}

/// What the local tool server does with the user's data: it listens on no network,
/// and hands transcripts to the model that calls it.
pub fn mcp_privacy(resolved: &ResolvedConfig) -> (r: McpPrivacy)
    ensures
        r.transport@ == "stdio"@,
        !r.network_listener,
        r.allow_start == resolved.config.mcp.allow_start,
        r.transcripts_sent_to_calling_model,
        r.note@
            == "`comlink mcp` is a local stdio server launched by the MCP client and opens no network listener; "@
            + (if resolved.config.mcp.allow_start {
            "MCP clients may start recordings (mcp.allow_start=true)"@
        } else {
            "MCP clients cannot start recordings until `comlink config set mcp.allow_start true`"@
        })
            + "; meeting_get_transcript and transcript resources send transcript text to the calling model"@,
{
    let allow_start = resolved.config.mcp.allow_start;
    let start: &str = if allow_start {
        "MCP clients may start recordings (mcp.allow_start=true)"
    } else {
        "MCP clients cannot start recordings until `comlink config set mcp.allow_start true`"
    };
    McpPrivacy {
        transport: "stdio",
        network_listener: false,
        allow_start,
        transcripts_sent_to_calling_model: true,
        note: cat3(
            "`comlink mcp` is a local stdio server launched by the MCP client and opens no network listener; ",
            start,
            "; meeting_get_transcript and transcript resources send transcript text to the calling model",
        ),
    }
}

/// A session is stale just where nobody is changing it and what it claims is not so: it is
/// recording and no recorder runs, or it is being transcribed and no finalizer runs. The
/// reason names the session.
pub proof fn law_stale_sessions(
    status: MeetingStatus,
    recorder: bool,
    locked: bool,
    finalizer: bool,
    id: Seq<char>,
)
    ensures
        stale_text(status, recorder, locked, finalizer, id) is Some <==> !locked && (status
            == MeetingStatus::Recording && !recorder || status == MeetingStatus::Transcribing
            && !finalizer),
        stale_text(status, recorder, locked, finalizer, id) matches Some(text) ==> contains(
            text,
            "comlink meet "@ + (if status == MeetingStatus::Recording {
                "stop "@
            } else {
                "finalize "@
            }) + id,
        ),
{
    if let Some(text) = stale_text(status, recorder, locked, finalizer, id) {
        reveal_strlit("; run `comlink meet stop ");
        reveal_strlit("; run `");
        reveal_strlit(" is no longer running; rerun `comlink meet finalize ");
        reveal_strlit(" is no longer running; rerun `");
        reveal_strlit("comlink meet ");
        reveal_strlit("stop ");
        reveal_strlit("finalize ");
        if status == MeetingStatus::Recording {
            let x = "comlink meet "@ + "stop "@ + id;
            let a = "no recorder process is running for recording session "@ + id + "; run `"@;
            assert("; run `comlink meet stop "@ =~= "; run `"@ + "comlink meet "@ + "stop "@);
            lemma_holds(a, x, "`"@);
            assert(text =~= a + x + "`"@);
        } else {
            let x = "comlink meet "@ + "finalize "@ + id;
            let a = "finalizer for "@ + id + " is no longer running; rerun `"@;
            assert(" is no longer running; rerun `comlink meet finalize "@
                =~= " is no longer running; rerun `"@ + "comlink meet "@ + "finalize "@);
            lemma_holds(a, x, "`"@);
            assert(text =~= a + x + "`"@);
        }
    }
}

/// The chunk that is looked at is the newest that is complete: the stream has one, leaving
/// out the one being written, and no stream has more of them. Where none is looked at no
/// stream has one.
pub proof fn law_newest_complete_chunk(
    files: Seq<(MeetingSourceLabel, Vec<String>)>,
    live: Seq<MeetingSourceLabel>,
    n: int,
)
    requires
        0 <= n <= files.len(),
    ensures
        match newest_stream(files, live, n) {
            Some(i) => {
                &&& 0 <= i < n
                &&& complete_index(files[i], live) == Some(
                    files[i].1@.len() - if live.contains(files[i].0) {
                        2int
                    } else {
                        1int
                    },
                )
                &&& files[i].1@.len() > if live.contains(files[i].0) {
                    1int
                } else {
                    0int
                }
                &&& forall|j: int|
                    0 <= j < n ==> (#[trigger] files[j]).1@.len() - (if live.contains(files[j].0) {
                        1int
                    } else {
                        0int
                    }) <= files[i].1@.len() - (if live.contains(files[i].0) {
                        1int
                    } else {
                        0int
                    })
            },
            None => forall|j: int|
                0 <= j < n ==> (#[trigger] files[j]).1@.len() <= if live.contains(files[j].0) {
                    1int
                } else {
                    0int
                },
        },
    decreases n,
{
    if n > 0 {
        law_newest_complete_chunk(files, live, n - 1);
    }
}

/// The chunks of streams are those of each of them added up.
pub proof fn law_chunks_add_up(
    a: Seq<(MeetingSourceLabel, Vec<String>)>,
    b: Seq<(MeetingSourceLabel, Vec<String>)>,
    x: (MeetingSourceLabel, Vec<String>),
)
    ensures
        chunk_total(a + b, (a.len() + b.len()) as int) == chunk_total(a, a.len() as int)
            + chunk_total(b, b.len() as int),
        chunk_total(seq![x], 1) == x.1@.len(),
        chunk_total(Seq::empty(), 0) == 0,
{
    lemma_chunk_total(a, b, b.len() as int);
    reveal_with_fuel(chunk_total, 2);
}

/// Chunks are counted stream by stream.
proof fn lemma_chunk_total(
    a: Seq<(MeetingSourceLabel, Vec<String>)>,
    b: Seq<(MeetingSourceLabel, Vec<String>)>,
    n: int,
)
    requires
        0 <= n <= b.len(),
    ensures
        chunk_total(a + b, a.len() + n) == chunk_total(a, a.len() as int) + chunk_total(b, n),
    decreases n,
{
    if n > 0 {
        lemma_chunk_total(a, b, n - 1);
        assert((a + b)[a.len() + n - 1] == b[n - 1]);
    } else {
        lemma_chunk_total_prefix(a, b, a.len() as int);
    }
}

/// What follows does not count.
proof fn lemma_chunk_total_prefix(
    a: Seq<(MeetingSourceLabel, Vec<String>)>,
    b: Seq<(MeetingSourceLabel, Vec<String>)>,
    n: int,
)
    requires
        0 <= n <= a.len(),
    ensures
        chunk_total(a + b, n) == chunk_total(a, n),
    decreases n,
{
    if n > 0 {
        lemma_chunk_total_prefix(a, b, n - 1);
        assert((a + b)[n - 1] == a[n - 1]);
    }
}

/// A source counts as being recorded just where one of its recorders runs.
pub proof fn law_live_sources(h: Seq<MeetRecorderHealth>, n: int, label: MeetingSourceLabel)
    requires
        0 <= n <= h.len(),
    ensures
        live_among(h, n).contains(label) <==> exists|i: int|
            0 <= i < n && (#[trigger] h[i]).alive && h[i].source_label == label,
    decreases n,
{
    if n > 0 {
        law_live_sources(h, n - 1, label);
        let rest = live_among(h, n - 1);
        let all = live_among(h, n);
        if rest.contains(label) {
            let k = choose|k: int| 0 <= k < rest.len() && rest[k] == label;
            assert(all[k] == label);
        }
        if h[n - 1].alive && h[n - 1].source_label == label {
            assert(all[all.len() - 1] == label);
        }
        if all.contains(label) && !rest.contains(label) {
            let k = choose|k: int| 0 <= k < all.len() && all[k] == label;
            if k < rest.len() {
                assert(rest[k] == label);
            }
        }
    }
}

/// Where no session is named, a report is about the one being recorded; else about the
/// newest that is being transcribed; else, where every session can be read, about the
/// newest that is over, if it failed.
pub proof fn law_reports_are_about_the_session_under_way(
    active: Option<Result<MeetingSessionState, ComlinkError>>,
    sessions: Seq<MeetingSessionState>,
    skipped: Seq<SkippedDir>,
    r: Result<Option<MeetingSessionState>, ComlinkError>,
    i: int,
)
    requires
        is_default_session(active, sessions, skipped, r),
    ensures
        active matches Some(Ok(s)) ==> (s.status == MeetingStatus::Recording ==> r == Ok::<
            Option<MeetingSessionState>,
            ComlinkError,
        >(Some(s))),
        active is None && 0 <= i < sessions.len() && sessions[i].status
            == MeetingStatus::Transcribing && (forall|j: int|
            0 <= j < i ==> (#[trigger] sessions[j]).status != MeetingStatus::Transcribing) ==> r
            == Ok::<Option<MeetingSessionState>, ComlinkError>(Some(sessions[i])),
        active is None && skipped.len() == 0 && (forall|j: int|
            0 <= j < sessions.len() ==> (#[trigger] sessions[j]).status
                != MeetingStatus::Transcribing) && 0 <= i < sessions.len() && sessions[i].status
            == MeetingStatus::Failed && (forall|j: int|
            0 <= j < i ==> (#[trigger] sessions[j]).status == MeetingStatus::Recording) ==> r
            == Ok::<Option<MeetingSessionState>, ComlinkError>(Some(sessions[i])),
        active is None && skipped.len() == 0 && (forall|j: int|
            0 <= j < sessions.len() ==> (#[trigger] sessions[j]).status == MeetingStatus::Stopped)
            ==> r == Ok::<Option<MeetingSessionState>, ComlinkError>(None),
{
    lemma_first_of(sessions, MeetingStatus::Transcribing, MeetingStatus::Transcribing);
    lemma_first_of(sessions, MeetingStatus::Stopped, MeetingStatus::Failed);
    if 0 <= i < sessions.len() {
        let x = sessions[i];
        if let Some(k) = first_of(
            sessions,
            MeetingStatus::Transcribing,
            MeetingStatus::Transcribing,
        ) {
            let y = sessions[k];
        }
        if let Some(k) = first_of(sessions, MeetingStatus::Stopped, MeetingStatus::Failed) {
            let y = sessions[k];
        }
    }
}

/// A transcript is given just of a stopped session with a valid export whose text could be
/// read, and then it is that text, with the warnings of the export.
pub proof fn law_transcripts_are_those_of_the_export(
    id: String,
    session: MeetingSessionState,
    kind: MeetingExportKind,
    export: Result<MeetingExport, ComlinkError>,
    content: Result<String, ComlinkError>,
    json_error: Option<Seq<char>>,
    r: Result<TranscriptResult, ComlinkError>,
)
    requires
        is_transcript_outcome(id, session, kind, export, content, json_error, r),
    ensures
        r is Ok <==> session.status == MeetingStatus::Stopped && export is Ok && content is Ok && (
        kind == MeetingExportKind::Json ==> json_error is None),
        r matches Ok(t) ==> t.content == content->Ok_0 && t.session_id == id && t.warnings
            == export->Ok_0.warnings && t.transcript_retained == export->Ok_0.retention.transcripts,
        session.status == MeetingStatus::Recording ==> r == Err::<TranscriptResult, ComlinkError>(
            ComlinkError::MeetingNotStopped(id),
        ),
        session.status == MeetingStatus::Transcribing ==> r == Err::<
            TranscriptResult,
            ComlinkError,
        >(ComlinkError::MeetingStillTranscribing(id)),
{
}

/// A report tells the session's own name and state, the time since its start, its chunks and
/// recorders; it warns of a near-silent level, of a stale session and of a failed one, and of
/// nothing else.
pub proof fn law_reports_tell_what_is_so(
    session: MeetingSessionState,
    facts: StatusFacts,
    locked: bool,
    chunk_count: int,
    now_ms: i64,
    r: MeetStatusReport,
)
    requires
        is_status_report(session, facts, locked, chunk_count, now_ms, r),
    ensures
        opt_text(r.session_id) == Some(session.session_id@),
        r.status@ == session.status.name(),
        session.started_at_ms <= now_ms && now_ms - session.started_at_ms <= i64::MAX ==> (
        r.elapsed_ms matches Some(ms) && ms == now_ms - session.started_at_ms),
        r.chunk_count == chunk_count,
        r.recorders == facts.recorders,
        opt_text(r.error) == opt_text(session.error),
        r.stale <==> !locked && (session.status == MeetingStatus::Recording && (forall|i: int|
            0 <= i < facts.recorders@.len() ==> !(#[trigger] facts.recorders@[i]).alive)
            || session.status == MeetingStatus::Transcribing && !finalizer_runs(
            session,
            facts.finalizer,
        )),
        facts.chunk_level is Some ==> r.audio_level == facts.chunk_level,
        facts.chunk_level is None && session.status == MeetingStatus::Stopped ==> r.audio_level
            == facts.exported_level,
        facts.chunk_level is None && session.status != MeetingStatus::Stopped ==> r.audio_level
            is None,
        r.warnings@.len() == (if r.audio_level matches Some(l) && l.near_silent {
            1int
        } else {
            0
        }) + (if r.stale {
            1int
        } else {
            0
        }) + (if session.status == MeetingStatus::Failed {
            1int
        } else {
            0
        }),
        session.status == MeetingStatus::Failed ==> (session.error matches Some(e) ==> contains(
            r.warnings@[r.warnings@.len() - 1]@,
            e@,
        )),
{
    assert(texts(r.warnings@).len() == r.warnings@.len());
    if session.status == MeetingStatus::Failed {
        if let Some(e) = session.error {
            let log = if facts.log_present {
                Some(joined(session.session_dir@, FINALIZE_LOG_FILE@))
            } else {
                None
            };
            let w = failed_warning(session, log);
            assert(texts(r.warnings@).last() == w);
            let rest = w.skip(("finalize failed: "@ + e@).len() as int);
            lemma_holds("finalize failed: "@, e@, rest);
            assert(w =~= "finalize failed: "@ + e@ + rest);
        }
    }
}

/// The finalizer of a session is the process that was noted for it, and one whose command
/// line names the session.
pub proof fn law_finalizers_name_their_session(
    session: MeetingSessionState,
    facts: Option<ProcessFacts>,
)
    ensures
        finalizer_runs(session, facts) ==> session.finalizer is Some && (facts matches Some(p)
            && p.running && (p.command matches Some(c) && contains(
            c@,
            "meet finalize "@ + session.session_id@,
        ))),
        session.finalizer is None || facts is None ==> !finalizer_runs(session, facts),
{
}

/// A summary of a session tells what the session is.
pub proof fn law_summaries_tell_the_session(s: MeetingSessionState, r: MeetSessionSummary)
    requires
        is_summary(s, r),
    ensures
        r.session_id == s.session_id && r.status@ == s.status.name() && r.started_at_ms
            == s.started_at_ms && r.stopped_at_ms == s.stopped_at_ms && r.duration_ms
            == s.duration_ms && r.segment_count == s.segment_count && r.source_mode == s.source.mode,
{
}

/// A session that cannot be found is told as that; any other that cannot be read is told by
/// its name, its file and the reason.
pub proof fn law_unreadable_sessions_are_told(
    root: Seq<char>,
    id: Seq<char>,
    read: Result<MeetingSessionState, ComlinkError>,
    r: Result<MeetingSessionState, ComlinkError>,
)
    requires
        is_read_for_status(root, id, read, r),
    ensures
        read is Ok ==> r == read,
        read matches Err(e) ==> (e is MeetingSessionNotFound ==> r == read) && (!(e
            is MeetingSessionNotFound) ==> (r matches Err(
            ComlinkError::MeetingSessionUnreadable { id: name, reason, .. },
        ) && name@ == id && reason@ == e.text())),
{
}

/// Where a directory holds a session that cannot be read, and none is being transcribed, that
/// is the error rather than a silent report.
pub proof fn law_first_unreadable(s: Seq<SkippedDir>)
    ensures
        match first_unreadable(s) {
            Some(i) => 0 <= i < s.len() && s[i].has_file && forall|j: int|
                0 <= j < i ==> !(#[trigger] s[j]).has_file,
            None => forall|j: int| 0 <= j < s.len() ==> !(#[trigger] s[j]).has_file,
        },
    decreases s.len(),
{
    if s.len() > 0 {
        let t = s.drop_last();
        law_first_unreadable(t);
        assert forall|j: int| 0 <= j < t.len() implies #[trigger] s[j] == t[j] by {}
    }
}

} // verus!
