//! The course of a meeting's operations, step by step: what is done next, given what
//! came of the last step.
use vstd::prelude::*;

use crate::error::ComlinkError;
use crate::meet::{
    failed, stopped, transcribing, MeetingSessionState, MeetingSourceMetadata, MeetingSourceStream,
    MeetingStatus,
};
use crate::meet_export::{is_export, MeetingExport};
use crate::meet_recorders::{
    apply_started_recorders, has_recorders, is_no_chunks_error, no_meeting_chunks_error,
    StartedRecorder,
};
use crate::meet_service::{
    after_launch, export_from_pipeline, finish_recovered, finish_transcribed, is_detached_status,
    law_meeting_lasts_to_its_latest_end, lemma_meeting_length, meeting_length, needs_repair,
    record_progress, repair_stopped_session_from_export, stop_before_transcription,
    stop_for_finalizer, stopped_as_exported, uncleared_active, unrecorded_failure, Effect, Job,
    JobPlan, JobStep, Launched, MeetDetachedStatus, PipelineOutput,
};
use crate::meet_store::MeetingChunk;
use crate::record::{ProcessIdentity, SegmentedCapture};
use crate::strings::{contains, copy_opt, lemma_holds, opt_text};

verus! {

/// Whether two sessions hold the same.
pub open spec fn is_same_session(a: MeetingSessionState, b: MeetingSessionState) -> bool {
    &&& a == (MeetingSessionState {
        source: MeetingSourceMetadata { streams: a.source.streams, ..b.source },
        ..b
    })
    &&& a.source.streams@ == b.source.streams@
}

/// A stream, copied.
fn copy_stream(s: &MeetingSourceStream) -> (r: MeetingSourceStream)
    ensures
        r == *s,
{
    MeetingSourceStream {
        label: s.label,
        device: s.device.clone(),
        chunks_dir: copy_opt(&s.chunks_dir),
        recorder_stderr_path: copy_opt(&s.recorder_stderr_path),
        recorder_pid: s.recorder_pid,
        recorder_identity: match &s.recorder_identity {
            Some(identity) => Some(identity.clone()),
            None => None,
        },
    }
}

/// A session, copied.
pub fn copy_session(s: &MeetingSessionState) -> (r: MeetingSessionState)
    ensures
        is_same_session(r, *s),
{
    let mut streams: Vec<MeetingSourceStream> = Vec::new();
    let mut i: usize = 0;
    while i < s.source.streams.len()
        invariant
            i <= s.source.streams@.len(),
            streams@ =~= s.source.streams@.take(i as int),
        decreases s.source.streams@.len() - i,
    {
        streams.push(copy_stream(&s.source.streams[i]));
        i += 1;
    }
    assert(streams@ =~= s.source.streams@);
    MeetingSessionState {
        schema_version: s.schema_version.clone(),
        session_id: s.session_id.clone(),
        status: s.status,
        started_at_ms: s.started_at_ms,
        stopped_at_ms: s.stopped_at_ms,
        duration_ms: s.duration_ms,
        mode: s.mode.clone(),
        no_llm: s.no_llm,
        recorder_pid: s.recorder_pid,
        recorder_identity: match &s.recorder_identity {
            Some(identity) => Some(identity.clone()),
            None => None,
        },
        device: s.device.clone(),
        source: MeetingSourceMetadata { mode: s.source.mode, streams },
        chunk_duration_ms: s.chunk_duration_ms,
        sample_rate_hz: s.sample_rate_hz,
        channels: s.channels,
        engine: s.engine.clone(),
        model: s.model.clone(),
        model_path: s.model_path.clone(),
        retention: s.retention.clone(),
        inactivity_auto_stop: s.inactivity_auto_stop.clone(),
        session_dir: s.session_dir.clone(),
        chunks_dir: s.chunks_dir.clone(),
        recorder_stderr_path: s.recorder_stderr_path.clone(),
        segments_jsonl_path: s.segments_jsonl_path.clone(),
        json_export_path: s.json_export_path.clone(),
        markdown_export_path: s.markdown_export_path.clone(),
        segment_count: s.segment_count,
        finalizer: match &s.finalizer {
            Some(identity) => Some(identity.clone()),
            None => None,
        },
        transcribing_started_at_ms: s.transcribing_started_at_ms,
        error: copy_opt(&s.error),
        chunks_processed: s.chunks_processed,
    }
}

/// A meeting whose transcript is there and is being put away.
#[derive(Debug)]
pub struct Commit {
    pub job: Job,
    /// The session as it is saved while the job goes on.
    pub session: MeetingSessionState,
    /// The session as it is saved once the job is done.
    pub finished: MeetingSessionState,
    /// What is written.
    pub export: MeetingExport,
    pub chunks_processed: usize,
}

/// What follows a step of a commit.
#[derive(Debug)]
pub enum CommitStep {
    /// The next effect is due, or all are done.
    Continue(Commit),
    /// It ends with an error; what is saved of the session stands.
    Refuse(ComlinkError),
    /// It ends with an error, once the session, which has failed, is saved.
    Fail(MeetingSessionState, ComlinkError),
}

impl Commit {
    /// Whether the job fits: nothing but the session that the job is about is saved as
    /// stopped, and audio is deleted just where it is not kept.
    pub open spec fn wf(self) -> bool {
        &&& self.job.wf()
        &&& self.finished.status == MeetingStatus::Stopped
        &&& self.finished.session_id@ == self.session.session_id@
        &&& self.finished.retention == self.session.retention
        &&& self.session.retention.audio ==> self.job.plan.keeps_audio()
    }

    /// The session that counts as failed where an effect fails. A stop has its session
    /// stopped once its progress is saved; a finalize just by the last save.
    pub open spec fn at_risk(self, e: Effect) -> MeetingSessionState {
        match self.job.plan {
            JobPlan::Stop { .. } => if e == Effect::SaveProgress {
                self.session
            } else {
                self.finished
            },
            JobPlan::Finalize { .. } | JobPlan::Recover { .. } => if e == Effect::SaveStopped {
                self.finished
            } else {
                self.session
            },
            JobPlan::Report { .. } => self.finished,
        }
    }

    /// What follows the effect that is due, given what came of it.
    pub fn after(self, outcome: Result<(), ComlinkError>) -> (r: CommitStep)
        requires
            self.wf(),
            self.job.upcoming() is Some,
        ensures
            match outcome {
                Ok(_) => r matches CommitStep::Continue(c) && c.wf() && c == (Commit {
                    job: Job { plan: self.job.plan, done: (self.job.done + 1) as usize },
                    ..self
                }),
                Err(e) => {
                    let effect = self.job.upcoming()->Some_0;
                    if self.job.plan.fails_session(effect) {
                        r matches CommitStep::Fail(s, error) && error == e && exists|m: String|
                            m@ == e.text() && s == #[trigger] failed(self.at_risk(effect), m)
                    } else {
                        r == CommitStep::Refuse(e)
                    }
                },
            },
    {
        let plan = self.job.plan;
        let effect = self.job.next();
        match self.job.after(outcome) {
            JobStep::Continue(job) => CommitStep::Continue(
                Commit {
                    job,
                    session: self.session,
                    finished: self.finished,
                    export: self.export,
                    chunks_processed: self.chunks_processed,
                },
            ),
            JobStep::Refuse(e) => CommitStep::Refuse(e),
            JobStep::Fail(e) => {
                let take_finished = match (plan, effect) {
                    (JobPlan::Stop { .. }, Some(Effect::SaveProgress)) => false,
                    (JobPlan::Stop { .. }, _) => true,
                    (JobPlan::Report { .. }, _) => true,
                    (_, Some(Effect::SaveStopped)) => true,
                    _ => false,
                };
                let mut session = if take_finished {
                    self.finished
                } else {
                    self.session
                };
                let message = e.message();
                let ghost before = session;
                session.mark_failed(message);
                assert(session == failed(before, message));
                CommitStep::Fail(session, e)
            },
        }
    }
}

/// The session once its progress is recorded.
pub open spec fn with_progress(s: MeetingSessionState, chunks: usize) -> MeetingSessionState {
    MeetingSessionState { chunks_processed: Some(chunks), ..s }
}

/// Whether `c` puts away what a transcription gave.
pub open spec fn is_transcribed_commit(
    s: MeetingSessionState,
    pipeline: PipelineOutput,
    detached: bool,
    now_ms: i64,
    c: Commit,
) -> bool {
    let progress = with_progress(s, pipeline.chunks@.len() as usize);
    let keep_audio = s.retention.audio;
    &&& c.wf()
    &&& c.job == (Job {
        plan: if detached {
            JobPlan::Finalize { keep_audio }
        } else {
            JobPlan::Stop { keep_audio }
        },
        done: 0,
    })
    &&& c.session == progress
    &&& is_same_session(
        c.finished,
        stopped(
            progress,
            match s.stopped_at_ms {
                Some(ms) => ms,
                None => now_ms,
            },
            pipeline.duration_ms,
            pipeline.segments@.len() as usize,
        ),
    )
    &&& is_export(
        c.finished,
        pipeline.segments@,
        pipeline.raw_text@,
        pipeline.processed,
        pipeline.segmenting,
        pipeline.audio_level,
        c.export,
    )
    &&& c.chunks_processed == pipeline.chunks@.len()
}

/// Puts away what a transcription gave. The export is made of the session as it will
/// be once stopped; nothing is committed yet.
pub fn commit_transcribed(
    session: MeetingSessionState,
    pipeline: &PipelineOutput,
    detached: bool,
    now_ms: i64,
) -> (r: Commit)
    ensures
        is_transcribed_commit(session, *pipeline, detached, now_ms, r),
{
    let mut session = session;
    record_progress(&mut session, pipeline);
    let mut finished = copy_session(&session);
    finish_transcribed(&mut finished, pipeline, now_ms);
    let export = export_from_pipeline(&finished, pipeline);
    let keep_audio = session.retention.audio;
    let plan = if detached {
        JobPlan::Finalize { keep_audio }
    } else {
        JobPlan::Stop { keep_audio }
    };
    Commit { job: Job::new(plan), session, finished, export, chunks_processed: pipeline.chunks.len() }
}

/// How many chunks are known to have been transcribed.
pub open spec fn known_chunks(s: MeetingSessionState) -> usize {
    match s.chunks_processed {
        Some(n) => n,
        None => 0,
    }
}

/// Puts away what an export holds.
pub fn commit_recovered(session: MeetingSessionState, export: MeetingExport, now_ms: i64) -> (r:
    Commit)
    ensures
        r.wf(),
        r.job == (Job {
            plan: JobPlan::Recover { keep_audio: session.retention.audio },
            done: 0,
        }),
        r.session == session,
        is_same_session(
            r.finished,
            with_progress(stopped_as_exported(session, export, now_ms), known_chunks(session)),
        ),
        r.export == export,
        r.chunks_processed == known_chunks(session),
{
    let mut finished = copy_session(&session);
    let chunks_processed = finish_recovered(&mut finished, &export, now_ms);
    let plan = JobPlan::Recover { keep_audio: session.retention.audio };
    Commit { job: Job::new(plan), session, finished, export, chunks_processed }
}

/// Reports what an export of a stopped session holds, once the session is in line with
/// it and what is not to be kept is deleted.
pub fn commit_report(
    session: MeetingSessionState,
    export: MeetingExport,
    job: JobPlan,
    now_ms: i64,
) -> (r: Commit)
    requires
        session.status == MeetingStatus::Stopped,
        session.retention.audio ==> job.keeps_audio(),
    ensures
        r.wf(),
        r.job == (Job { plan: job, done: 0 }),
        r.session == session,
        is_same_session(
            r.finished,
            if needs_repair(session, export) {
                stopped_as_exported(session, export, now_ms)
            } else {
                session
            },
        ),
        r.export == export,
        r.chunks_processed == known_chunks(session),
{
    let mut finished = copy_session(&session);
    repair_stopped_session_from_export(&mut finished, &export, now_ms);
    let chunks_processed = match session.chunks_processed {
        Some(n) => n,
        None => 0,
    };
    Commit { job: Job::new(job), session, finished, export, chunks_processed }
}

/// How far a stop has come.
#[derive(Debug, Clone, Copy, PartialEq, Eq, Structural)]
pub enum StopStage {
    /// The recorders are to be stopped.
    Stopping,
    /// The chunks are to be listed.
    Listing,
    /// The session, stopped, is to be saved.
    SavingStopped,
    /// The name of the session being recorded is to be cleared.
    ClearingStopped,
    /// The chunks are to be transcribed; what comes of it is put away as a commit.
    Transcribing,
    /// The session, which a finalizer will transcribe, is to be saved.
    SavingTranscribing,
    /// The finalizer is to be launched.
    Launching,
    /// The session, which names its finalizer, is to be saved.
    SavingFinalizer,
    /// The name of the session being recorded is to be cleared.
    ClearingLaunched,
    /// The failed launch is to be logged.
    LoggingLaunch,
    /// The session, which has failed, is to be saved.
    SavingFailed,
    /// That it could not be saved is to be logged.
    LoggingUnsaved,
    /// The name of the session being recorded is to be cleared.
    ClearingFailed,
    /// That it could not be cleared is to be logged.
    LoggingUncleared,
    /// The finalizer has the meeting.
    Finished,
    /// The stop ended with an error.
    Failed,
}

/// A stop under way.
#[derive(Debug)]
pub struct StopFlow {
    /// Whether transcription is left to a finalizer.
    pub detach: bool,
    pub stage: StopStage,
    pub session: MeetingSessionState,
    pub stopped_at_ms: i64,
    pub chunks: Vec<MeetingChunk>,
    /// What a detached stop reports.
    pub status: Option<MeetDetachedStatus>,
    /// What is to be logged.
    pub log: Option<String>,
    /// What the stop ends with.
    pub error: Option<ComlinkError>,
}

/// What came of a step.
#[derive(Debug)]
pub enum StopEvent {
    Done,
    Failed(ComlinkError),
    Listed(Vec<MeetingChunk>),
    Launched(ProcessIdentity),
}

/// Whether an event can come of a step.
pub open spec fn stop_accepts(stage: StopStage, e: StopEvent) -> bool {
    match stage {
        StopStage::Listing => e is Listed || e is Failed,
        StopStage::Launching => e is Launched || e is Failed,
        StopStage::Transcribing | StopStage::Finished | StopStage::Failed => false,
        _ => e is Done || e is Failed,
    }
}

impl StopFlow {
    /// What holds at each stage. The name of the session being recorded is never cleared
    /// while the session counts as recording; a finalizer is launched just for a session
    /// that is to be transcribed and has audio; and a stop that is finished has named
    /// its finalizer.
    pub open spec fn wf(self) -> bool {
        match self.stage {
            StopStage::Stopping | StopStage::Listing => self.session.status
                == MeetingStatus::Recording,
            StopStage::SavingStopped | StopStage::ClearingStopped => self.session.status
                == MeetingStatus::Stopped && (self.detach ==> self.chunks@.len() == 0),
            StopStage::Transcribing => self.session.status == MeetingStatus::Stopped
                && self.chunks@.len() > 0 && !self.detach,
            StopStage::SavingTranscribing | StopStage::Launching => self.session.status
                == MeetingStatus::Transcribing && self.chunks@.len() > 0 && self.detach,
            StopStage::SavingFinalizer | StopStage::ClearingLaunched | StopStage::Finished =>
                self.session.status == MeetingStatus::Transcribing && self.session.finalizer is Some
                && self.status is Some && self.detach,
            StopStage::LoggingLaunch
            | StopStage::SavingFailed
            | StopStage::LoggingUnsaved
            | StopStage::ClearingFailed
            | StopStage::LoggingUncleared => self.session.status == MeetingStatus::Failed
                && self.error is Some,
            StopStage::Failed => self.error is Some,
        }
    }

    /// A stop of a session that is being recorded.
    pub fn new(session: MeetingSessionState, detach: bool, stopped_at_ms: i64) -> (r: Self)
        requires
            session.status == MeetingStatus::Recording,
        ensures
            r.wf(),
            r.stage == StopStage::Stopping,
            r.session == session,
            r.detach == detach,
            r.stopped_at_ms == stopped_at_ms,
            r.chunks@.len() == 0,
            r.error is None,
    {
        StopFlow {
            detach,
            stage: StopStage::Stopping,
            session,
            stopped_at_ms,
            chunks: Vec::new(),
            status: None,
            log: None,
            error: None,
        }
    }
}

/// Whether `r` is the stop `f` at another stage, with nothing else changed.
pub open spec fn moved(f: StopFlow, stage: StopStage, r: StopFlow) -> bool {
    r == (StopFlow { stage, ..f })
}

/// Whether `r` is the stop `f`, ended with an error.
pub open spec fn ended(f: StopFlow, e: ComlinkError, r: StopFlow) -> bool {
    r == (StopFlow { stage: StopStage::Failed, error: Some(e), ..f })
}

/// Whether `r` is the stop `f` once its chunks are listed. In place, the session is
/// stopped before anything is transcribed; with a finalizer it is to be transcribed,
/// unless there is no audio.
pub open spec fn is_listed(f: StopFlow, chunks: Vec<MeetingChunk>, now_ms: i64, r: StopFlow) -> bool {
    let length = meeting_length(chunks@) as u64;
    let leave = f.detach && chunks@.len() > 0;
    r == (StopFlow {
        stage: if leave {
            StopStage::SavingTranscribing
        } else {
            StopStage::SavingStopped
        },
        session: if leave {
            transcribing(f.session, f.stopped_at_ms, length, now_ms)
        } else {
            stopped(f.session, f.stopped_at_ms, length, 0)
        },
        chunks,
        ..f
    })
}

/// Whether `r` is the stop `f` once its finalizer was launched, or was not.
pub open spec fn is_launched(
    f: StopFlow,
    launched: Result<ProcessIdentity, ComlinkError>,
    now_ms: i64,
    r: StopFlow,
) -> bool {
    match launched {
        Ok(identity) => {
            let session = MeetingSessionState { finalizer: Some(identity), ..f.session };
            &&& r == (StopFlow {
                stage: StopStage::SavingFinalizer,
                session,
                status: r.status,
                ..f
            })
            &&& r.status matches Some(status) && is_detached_status(
                session,
                identity.pid,
                f.chunks@,
                now_ms,
                status,
            )
        },
        Err(e) => {
            &&& r.log matches Some(line) && line@ == "finalizer launch failed: "@ + e.text()
            &&& r.error matches Some(ComlinkError::MeetingFinalizeLaunchFailed(reason)) && reason@
                == e.text()
            &&& r.session.error matches Some(line) && line@ == "finalizer launch failed: "@
                + e.text() && r == (StopFlow {
                stage: StopStage::LoggingLaunch,
                session: failed(f.session, line),
                log: r.log,
                error: r.error,
                ..f
            })
        },
    }
}

/// Whether `r` follows the stop `f` once the step that was due came to `e`.
pub open spec fn is_next_stop(f: StopFlow, e: StopEvent, now_ms: i64, r: StopFlow) -> bool {
    match (f.stage, e) {
        (StopStage::Stopping, StopEvent::Done) => moved(f, StopStage::Listing, r),
        (StopStage::Listing, StopEvent::Listed(chunks)) => is_listed(f, chunks, now_ms, r),
        (StopStage::SavingStopped, StopEvent::Done) => moved(f, StopStage::ClearingStopped, r),
        (StopStage::ClearingStopped, StopEvent::Done) => if f.chunks@.len() == 0 {
            &&& r.error matches Some(error) && is_no_chunks_error(f.session, error)
            &&& r == (StopFlow { stage: StopStage::Failed, error: r.error, ..f })
        } else {
            moved(f, StopStage::Transcribing, r)
        },
        (StopStage::SavingTranscribing, StopEvent::Done) => moved(f, StopStage::Launching, r),
        (StopStage::Launching, StopEvent::Launched(identity)) => is_launched(
            f,
            Ok(identity),
            now_ms,
            r,
        ),
        (StopStage::Launching, StopEvent::Failed(e)) => is_launched(f, Err(e), now_ms, r),
        (StopStage::SavingFinalizer, StopEvent::Done) => moved(f, StopStage::ClearingLaunched, r),
        (StopStage::ClearingLaunched, StopEvent::Done) => moved(f, StopStage::Finished, r),
        (StopStage::LoggingLaunch, _) => moved(f, StopStage::SavingFailed, r),
        (StopStage::SavingFailed, StopEvent::Done) => moved(f, StopStage::ClearingFailed, r),
        (StopStage::SavingFailed, StopEvent::Failed(e)) => {
            &&& r.log matches Some(line) && line@ == "could not record the failed state for "@
                + f.session.session_id@ + " ("@ + e.text() + "); original error: "@
                + f.error->Some_0.text()
            &&& r == (StopFlow { stage: StopStage::LoggingUnsaved, log: r.log, ..f })
        },
        (StopStage::LoggingUnsaved, _) => moved(f, StopStage::ClearingFailed, r),
        (StopStage::ClearingFailed, StopEvent::Done) => moved(f, StopStage::Failed, r),
        (StopStage::ClearingFailed, StopEvent::Failed(e)) => {
            &&& r.log matches Some(line) && line@
                == "could not clear the active-session pointer for "@ + f.session.session_id@
                + " ("@ + e.text() + "); original error: "@ + f.error->Some_0.text()
            &&& r == (StopFlow { stage: StopStage::LoggingUncleared, log: r.log, ..f })
        },
        (StopStage::LoggingUncleared, _) => moved(f, StopStage::Failed, r),
        (_, StopEvent::Failed(e)) => ended(f, e, r),
        _ => false,
    }
}

impl StopFlow {
    /// The stop once the step that was due came to something. A failure of a step ends
    /// it, but for the launch of a finalizer: then the session is saved as failed and its
    /// name cleared first, and what goes wrong with that is just logged.
    pub fn next(self, event: StopEvent, now_ms: i64) -> (r: Self)
        requires
            self.wf(),
            stop_accepts(self.stage, event),
        ensures
            r.wf(),
            is_next_stop(self, event, now_ms, r),
    {
        let mut flow = self;
        match flow.stage {
            StopStage::LoggingLaunch => {
                flow.stage = StopStage::SavingFailed;
                return flow;
            },
            StopStage::LoggingUnsaved => {
                flow.stage = StopStage::ClearingFailed;
                return flow;
            },
            StopStage::LoggingUncleared => {
                flow.stage = StopStage::Failed;
                return flow;
            },
            _ => {},
        }
        match event {
            StopEvent::Done => flow.done(),
            StopEvent::Listed(chunks) => flow.listed(chunks, now_ms),
            StopEvent::Launched(identity) => flow.launched(Ok(identity), now_ms),
            StopEvent::Failed(e) => match flow.stage {
                StopStage::Launching => flow.launched(Err(e), now_ms),
                StopStage::SavingFailed => {
                    if let Some(original) = &flow.error {
                        let line = unrecorded_failure(&flow.session, &e, original);
                        flow.log = Some(line);
                    }
                    flow.stage = StopStage::LoggingUnsaved;
                    flow
                },
                StopStage::ClearingFailed => {
                    if let Some(original) = &flow.error {
                        let line = uncleared_active(&flow.session, &e, original);
                        flow.log = Some(line);
                    }
                    flow.stage = StopStage::LoggingUncleared;
                    flow
                },
                _ => {
                    flow.stage = StopStage::Failed;
                    flow.error = Some(e);
                    flow
                },
            },
        }
    }

    /// The stop once its chunks are listed.
    fn listed(self, chunks: Vec<MeetingChunk>, now_ms: i64) -> (r: Self)
        requires
            self.wf(),
            self.stage == StopStage::Listing,
        ensures
            r.wf(),
            is_listed(self, chunks, now_ms, r),
    {
        let mut flow = self;
        let leave = flow.detach && chunks.len() > 0;
        if leave {
            stop_for_finalizer(&mut flow.session, flow.stopped_at_ms, &chunks, now_ms);
            flow.stage = StopStage::SavingTranscribing;
        } else {
            stop_before_transcription(&mut flow.session, flow.stopped_at_ms, &chunks);
            flow.stage = StopStage::SavingStopped;
        }
        flow.chunks = chunks;
        flow
    }

    /// The stop once its finalizer was launched, or was not.
    fn launched(self, launched: Result<ProcessIdentity, ComlinkError>, now_ms: i64) -> (r: Self)
        requires
            self.wf(),
            self.stage == StopStage::Launching,
        ensures
            r.wf(),
            is_launched(self, launched, now_ms, r),
    {
        let mut flow = self;
        match after_launch(&mut flow.session, launched, &flow.chunks, now_ms) {
            Launched::Running(status) => {
                flow.status = Some(status);
                flow.stage = StopStage::SavingFinalizer;
            },
            Launched::Failed(line, error) => {
                flow.log = Some(line);
                flow.error = Some(error);
                flow.stage = StopStage::LoggingLaunch;
            },
        }
        flow
    }

    /// The stop once the step that was due was done.
    fn done(self) -> (r: Self)
        requires
            self.wf(),
            stop_accepts(self.stage, StopEvent::Done),
            self.stage != StopStage::LoggingLaunch,
            self.stage != StopStage::LoggingUnsaved,
            self.stage != StopStage::LoggingUncleared,
        ensures
            r.wf(),
            forall|now_ms: i64| #[trigger] is_next_stop(self, StopEvent::Done, now_ms, r),
    {
        let mut flow = self;
        match flow.stage {
            StopStage::Stopping => flow.stage = StopStage::Listing,
            StopStage::SavingStopped => flow.stage = StopStage::ClearingStopped,
            StopStage::ClearingStopped => {
                if flow.chunks.len() == 0 {
                    let error = no_meeting_chunks_error(&flow.session);
                    flow.error = Some(error);
                    flow.stage = StopStage::Failed;
                } else {
                    flow.stage = StopStage::Transcribing;
                }
            },
            StopStage::SavingTranscribing => flow.stage = StopStage::Launching,
            StopStage::SavingFinalizer => flow.stage = StopStage::ClearingLaunched,
            StopStage::ClearingLaunched => flow.stage = StopStage::Finished,
            StopStage::SavingFailed => flow.stage = StopStage::ClearingFailed,
            StopStage::ClearingFailed => flow.stage = StopStage::Failed,
            _ => {},
        }
        flow
    }
}

/// What a step of a stop does to what is stored.
#[derive(Debug, Clone, Copy, PartialEq, Eq, Structural)]
pub enum StopAction {
    StopRecorders,
    ListChunks,
    SaveSession,
    ClearActive,
    Transcribe,
    LaunchFinalizer,
    AppendLog,
    End,
}

/// What is done at a stage.
pub open spec fn stop_action(stage: StopStage) -> StopAction {
    match stage {
        StopStage::Stopping => StopAction::StopRecorders,
        StopStage::Listing => StopAction::ListChunks,
        StopStage::SavingStopped
        | StopStage::SavingTranscribing
        | StopStage::SavingFinalizer
        | StopStage::SavingFailed => StopAction::SaveSession,
        StopStage::ClearingStopped
        | StopStage::ClearingLaunched
        | StopStage::ClearingFailed => StopAction::ClearActive,
        StopStage::Transcribing => StopAction::Transcribe,
        StopStage::Launching => StopAction::LaunchFinalizer,
        StopStage::LoggingLaunch
        | StopStage::LoggingUnsaved
        | StopStage::LoggingUncleared => StopAction::AppendLog,
        StopStage::Finished | StopStage::Failed => StopAction::End,
    }
}

impl StopFlow {
    /// What is to be done next.
    pub fn action(&self) -> (r: StopAction)
        ensures
            r == stop_action(self.stage),
    {
        match self.stage {
            StopStage::Stopping => StopAction::StopRecorders,
            StopStage::Listing => StopAction::ListChunks,
            StopStage::SavingStopped
            | StopStage::SavingTranscribing
            | StopStage::SavingFinalizer
            | StopStage::SavingFailed => StopAction::SaveSession,
            StopStage::ClearingStopped
            | StopStage::ClearingLaunched
            | StopStage::ClearingFailed => StopAction::ClearActive,
            StopStage::Transcribing => StopAction::Transcribe,
            StopStage::Launching => StopAction::LaunchFinalizer,
            StopStage::LoggingLaunch
            | StopStage::LoggingUnsaved
            | StopStage::LoggingUncleared => StopAction::AppendLog,
            StopStage::Finished | StopStage::Failed => StopAction::End,
        }
    }
}

/// The name of the session being recorded is cleared, the chunks are transcribed and a
/// finalizer is launched just once the session no longer counts as recording; and a
/// finalizer is launched just for one that is to be transcribed.
pub proof fn law_stop_saves_before_it_hands_over(f: StopFlow)
    requires
        f.wf(),
    ensures
        stop_action(f.stage) == StopAction::ClearActive ==> f.session.status
            != MeetingStatus::Recording,
        stop_action(f.stage) == StopAction::Transcribe ==> f.session.status
            == MeetingStatus::Stopped && f.chunks@.len() > 0,
        stop_action(f.stage) == StopAction::LaunchFinalizer ==> f.session.status
            == MeetingStatus::Transcribing && f.chunks@.len() > 0,
{
}

/// How often a stop can still move on from a stage.
pub open spec fn stop_distance(stage: StopStage) -> nat {
    match stage {
        StopStage::Stopping => 12,
        StopStage::Listing => 11,
        StopStage::SavingStopped => 10,
        StopStage::ClearingStopped => 9,
        StopStage::SavingTranscribing => 10,
        StopStage::Launching => 9,
        StopStage::SavingFinalizer => 8,
        StopStage::ClearingLaunched => 7,
        StopStage::LoggingLaunch => 6,
        StopStage::SavingFailed => 5,
        StopStage::LoggingUnsaved => 4,
        StopStage::ClearingFailed => 3,
        StopStage::LoggingUncleared => 2,
        StopStage::Transcribing | StopStage::Finished | StopStage::Failed => 0,
    }
}

/// A stop always comes to an end: every step leads to a stage that is nearer to one.
pub proof fn law_stop_ends(f: StopFlow, e: StopEvent, now_ms: i64, r: StopFlow)
    requires
        f.wf(),
        stop_accepts(f.stage, e),
        is_next_stop(f, e, now_ms, r),
    ensures
        stop_distance(r.stage) < stop_distance(f.stage),
{
}

/// How far a start has come.
#[derive(Debug, Clone, Copy, PartialEq, Eq, Structural)]
pub enum StartStage {
    /// The session is to be created: its directories made, itself saved and named as
    /// the one being recorded.
    Creating,
    /// The recorder of this stream is to be started.
    Recording(usize),
    /// The session, which names its recorders, is to be saved.
    Saving,
    /// The recorders that were started are to be stopped again.
    Unwinding,
    /// The name of the session being recorded is to be cleared.
    Clearing,
    /// The meeting is being recorded.
    Finished,
    /// The start ended with an error.
    Failed,
}

/// A start under way.
#[derive(Debug)]
pub struct StartFlow {
    pub stage: StartStage,
    pub session: MeetingSessionState,
    pub started: Vec<StartedRecorder>,
    /// What the start ends with.
    pub error: Option<ComlinkError>,
}

/// What came of a step of a start.
#[derive(Debug)]
pub enum StartEvent {
    Done,
    Failed(ComlinkError),
    Captured(SegmentedCapture),
}

/// Whether an event can come of a step of a start.
pub open spec fn start_accepts(stage: StartStage, e: StartEvent) -> bool {
    match stage {
        StartStage::Recording(_) => e is Captured || e is Failed,
        StartStage::Creating | StartStage::Saving | StartStage::Unwinding | StartStage::Clearing =>
            e is Done || e is Failed,
        StartStage::Finished | StartStage::Failed => false,
    }
}

/// Whether each recorder was started for the stream in its place.
pub open spec fn match_streams(s: Seq<MeetingSourceStream>, started: Seq<StartedRecorder>) -> bool {
    started.len() <= s.len() && forall|i: int|
        0 <= i < started.len() ==> (#[trigger] started[i]).label == s[i].label
}

/// The stage after a recorder is running: the next stream, or the save.
pub open spec fn next_recorder(s: MeetingSessionState, count: int) -> StartStage {
    if count < s.source.streams@.len() {
        StartStage::Recording(count as usize)
    } else {
        StartStage::Saving
    }
}

impl StartFlow {
    /// What holds at each stage: while recorders are being started there is one for each
    /// stream before the one that is due, and a session is saved as recording just once
    /// there is one for each stream.
    pub open spec fn wf(self) -> bool {
        match self.stage {
            StartStage::Creating => self.started@.len() == 0,
            StartStage::Recording(i) => self.started@.len() == i && i
                < self.session.source.streams@.len() && match_streams(
                self.session.source.streams@,
                self.started@,
            ),
            StartStage::Saving | StartStage::Finished => self.started@.len() == 0,
            StartStage::Unwinding | StartStage::Clearing | StartStage::Failed => self.error is Some,
        }
    }

    /// A start of a session.
    pub fn new(session: MeetingSessionState) -> (r: Self)
        ensures
            r.wf(),
            r.stage == StartStage::Creating,
            r.session == session,
            r.started@.len() == 0,
            r.error is None,
    {
        StartFlow { stage: StartStage::Creating, session, started: Vec::new(), error: None }
    }
}

/// Whether `r` is the start `f` with one more recorder. With the last of them the
/// session names them all.
pub open spec fn is_captured(f: StartFlow, capture: SegmentedCapture, r: StartFlow) -> bool {
    let at = f.started@.len() as int;
    let recorder = StartedRecorder { label: f.session.source.streams@[at].label, capture };
    if at + 1 < f.session.source.streams@.len() {
        &&& r.started@ == f.started@.push(recorder)
        &&& r == (StartFlow {
            stage: next_recorder(f.session, at + 1),
            started: r.started,
            ..f
        })
    } else {
        &&& has_recorders(f.session, f.started@.push(recorder), r.session)
        &&& r.started@.len() == 0
        &&& r.stage == StartStage::Saving
        &&& r.error == f.error
    }
}

/// Whether `r` follows the start `f` once the step that was due came to `e`. Where a
/// recorder cannot be started, those before it are stopped again and the name of the
/// session being recorded is cleared.
pub open spec fn is_next_start(f: StartFlow, e: StartEvent, r: StartFlow) -> bool {
    match (f.stage, e) {
        (StartStage::Creating, StartEvent::Done) => if f.session.source.streams@.len() == 0 {
            &&& has_recorders(f.session, Seq::empty(), r.session)
            &&& r.stage == StartStage::Saving
            &&& r.started@.len() == 0
            &&& r.error == f.error
        } else {
            r == (StartFlow { stage: StartStage::Recording(0), ..f })
        },
        (StartStage::Recording(_), StartEvent::Captured(capture)) => is_captured(f, capture, r),
        (StartStage::Recording(_), StartEvent::Failed(e)) => r == (StartFlow {
            stage: StartStage::Unwinding,
            error: Some(e),
            ..f
        }),
        (StartStage::Saving, StartEvent::Done) => r == (StartFlow {
            stage: StartStage::Finished,
            ..f
        }),
        (StartStage::Unwinding, _) => r == (StartFlow { stage: StartStage::Clearing, ..f }),
        (StartStage::Clearing, StartEvent::Done) => r == (StartFlow {
            stage: StartStage::Failed,
            ..f
        }),
        (_, StartEvent::Failed(e)) => r == (StartFlow {
            stage: StartStage::Failed,
            error: Some(e),
            ..f
        }),
        _ => false,
    }
}

impl StartFlow {
    /// The start once the step that was due came to something.
    pub fn next(self, event: StartEvent) -> (r: Self)
        requires
            self.wf(),
            start_accepts(self.stage, event),
        ensures
            r.wf(),
            is_next_start(self, event, r),
    {
        let mut flow = self;
        match flow.stage {
            StartStage::Unwinding => {
                flow.stage = StartStage::Clearing;
                return flow;
            },
            _ => {},
        }
        match event {
            StartEvent::Captured(capture) => flow.captured(capture),
            StartEvent::Failed(e) => {
                flow.error = Some(e);
                flow.stage = match flow.stage {
                    StartStage::Recording(_) => StartStage::Unwinding,
                    _ => StartStage::Failed,
                };
                flow
            },
            StartEvent::Done => {
                match flow.stage {
                    StartStage::Creating => {
                        if flow.session.source.streams.len() == 0 {
                            let none: Vec<StartedRecorder> = Vec::new();
                            apply_started_recorders(&mut flow.session, none);
                            flow.stage = StartStage::Saving;
                        } else {
                            flow.stage = StartStage::Recording(0);
                        }
                    },
                    StartStage::Saving => flow.stage = StartStage::Finished,
                    StartStage::Clearing => flow.stage = StartStage::Failed,
                    _ => {},
                }
                flow
            },
        }
    }

    /// The start with one more recorder.
    fn captured(self, capture: SegmentedCapture) -> (r: Self)
        requires
            self.wf(),
            self.stage is Recording,
        ensures
            r.wf(),
            is_captured(self, capture, r),
    {
        let mut flow = self;
        let at: usize = flow.started.len();
        let total: usize = flow.session.source.streams.len();
        let label = flow.session.source.streams[at].label;
        flow.started.push(StartedRecorder { label, capture });
        if at + 1 < total {
            flow.stage = StartStage::Recording(at + 1);
        } else {
            let mut started: Vec<StartedRecorder> = Vec::new();
            std::mem::swap(&mut started, &mut flow.started);
            apply_started_recorders(&mut flow.session, started);
            flow.stage = StartStage::Saving;
        }
        flow
    }
}

/// Where a recorder cannot be started, those that were started are stopped and the name
/// of the session being recorded is cleared before the start ends. Else a start ends with
/// an error just where its session could not be created, or could not be saved once it
/// was being recorded.
pub proof fn law_failed_start_unwinds(f: StartFlow, e: StartEvent, r: StartFlow)
    requires
        f.wf(),
        start_accepts(f.stage, e),
        is_next_start(f, e, r),
    ensures
        f.stage is Recording && e is Failed ==> r.stage == StartStage::Unwinding && r.started
            == f.started,
        f.stage == StartStage::Unwinding ==> r.stage == StartStage::Clearing,
        r.stage == StartStage::Finished ==> f.stage == StartStage::Saving,
        r.stage == StartStage::Failed ==> f.stage == StartStage::Clearing || e is Failed && (f.stage
            == StartStage::Creating || f.stage == StartStage::Saving),
{
}

/// Once its chunks are listed, a session has the length of its latest chunk and no longer
/// counts as recording; it is handed to a finalizer where that is asked and there is audio,
/// and stopped else.
pub proof fn law_listed_sessions_have_their_length(
    f: StopFlow,
    chunks: Vec<MeetingChunk>,
    now_ms: i64,
    r: StopFlow,
)
    requires
        is_listed(f, chunks, now_ms, r),
    ensures
        r.chunks == chunks,
        r.session.stopped_at_ms == Some(f.stopped_at_ms),
        r.session.duration_ms matches Some(ms) && (forall|i: int|
            0 <= i < chunks@.len() ==> ms == u64::MAX || (#[trigger] chunks@[i]).start_ms
                + chunks@[i].duration_ms <= ms),
        chunks@.len() == 0 ==> r.session.duration_ms == Some(0u64),
        f.detach && chunks@.len() > 0 ==> r.session.status == MeetingStatus::Transcribing && r.stage
            == StopStage::SavingTranscribing && r.session.transcribing_started_at_ms == Some(now_ms),
        !(f.detach && chunks@.len() > 0) ==> r.session.status == MeetingStatus::Stopped && r.stage
            == StopStage::SavingStopped,
        r.session.session_id == f.session.session_id,
        r.session.retention == f.session.retention,
{
    law_meeting_lasts_to_its_latest_end(chunks@);
    lemma_meeting_length(chunks@);
}

/// What a transcription gave is committed: the session is saved as stopped with the length
/// and the number of segments of the transcript, at the time it was stopped, and exported
/// with its raw text where transcripts are kept.
pub proof fn law_transcriptions_are_committed(
    s: MeetingSessionState,
    pipeline: PipelineOutput,
    detached: bool,
    now_ms: i64,
    c: Commit,
)
    requires
        is_transcribed_commit(s, pipeline, detached, now_ms, c),
    ensures
        c.finished.status == MeetingStatus::Stopped,
        c.finished.duration_ms == Some(pipeline.duration_ms),
        c.finished.segment_count == pipeline.segments@.len() as usize,
        s.stopped_at_ms is Some ==> c.finished.stopped_at_ms == s.stopped_at_ms,
        s.stopped_at_ms is None ==> c.finished.stopped_at_ms == Some(now_ms),
        c.finished.session_id == s.session_id && c.finished.started_at_ms == s.started_at_ms,
        c.session.chunks_processed == Some(pipeline.chunks@.len() as usize),
        c.export.session.duration_ms == pipeline.duration_ms,
        c.export.segments@.len() == pipeline.segments@.len(),
        s.retention.transcripts ==> opt_text(c.export.raw_text) == Some(pipeline.raw_text@),
        c.job.plan.keeps_audio() == s.retention.audio,
        c.job.done == 0,
{
}

/// Where a finalizer cannot be launched the session has failed, for that reason, which is
/// logged and is the error of the stop; where it can, the session names it.
pub proof fn law_launches_are_noted(
    f: StopFlow,
    launched: Result<ProcessIdentity, ComlinkError>,
    now_ms: i64,
    r: StopFlow,
)
    requires
        is_launched(f, launched, now_ms, r),
    ensures
        launched matches Ok(identity) ==> r.session.finalizer == Some(identity) && r.session.status
            == f.session.status && r.stage == StopStage::SavingFinalizer && (
        r.status matches Some(s) && s.finalizer_pid == identity.pid && s.chunk_count
            == f.chunks@.len()),
        launched matches Err(e) ==> r.session.status == MeetingStatus::Failed && (
        r.session.error matches Some(m) && contains(m@, e.text())) && r.session.finalizer is None
            && (r.log matches Some(l) && contains(l@, e.text())) && r.error is Some && r.stage
            == StopStage::LoggingLaunch,
        r.session.session_id == f.session.session_id && r.chunks == f.chunks,
{
    if let Err(e) = launched {
        let none = Seq::<char>::empty();
        let a = "finalizer launch failed: "@;
        lemma_holds(a, e.text(), none);
        assert(a + e.text() + none =~= a + e.text());
    }
}

/// The session that fails with an effect is the finished one where that was committed: in a
/// stop from its first save on, in a finalize or a recovery with its last.
pub proof fn law_failed_effects_keep_what_was_committed(c: Commit, e: Effect)
    ensures
        c.job.plan is Stop ==> c.at_risk(e) == if e == Effect::SaveProgress {
            c.session
        } else {
            c.finished
        },
        c.job.plan is Finalize || c.job.plan is Recover ==> c.at_risk(e) == if e
            == Effect::SaveStopped {
            c.finished
        } else {
            c.session
        },
        c.job.plan is Report ==> c.at_risk(e) == c.finished,
{
}

} // verus!
