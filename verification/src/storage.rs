//! The history of transcripts: what is written to it, as far as it is to be kept,
//! and what is read back.
use vstd::prelude::*;

use crate::asr::{Segment, SourceMetadata};
use crate::config::{ConfigPaths, RetentionConfig};
use crate::error::ComlinkError;
use crate::meet_export::kept;
use crate::numbers::{decimal, u128_text};
use crate::output::{TranscriptOutput, SCHEMA_VERSION};
use crate::paths::{extension, join_path, joined, path_extension};
use crate::strings::{cat2, cat3, lower, opt_text, quote, quoted, to_lower};

verus! {

/// A stretch of speech in the history.
#[derive(Debug)]
pub struct StoredSegment {
    pub start_ms: u64,
    pub end_ms: u64,
    pub text: Option<String>,
}

/// A transcript in the history.
#[derive(Debug)]
pub struct StoredSession {
    pub schema_version: String,
    pub id: String,
    pub created_at_ms: i64,
    pub mode: String,
    /// Whether the text was copied to the clipboard; the history does not tell.
    pub copied: bool,
    pub engine: String,
    pub model: String,
    pub duration_ms: u64,
    pub source: SourceMetadata,
    pub raw_text: Option<String>,
    pub final_text: Option<String>,
    pub audio_path: Option<String>,
    pub segments: Vec<StoredSegment>,
}

/// A transcript in a list of the history.
#[derive(Debug, Clone)]
pub struct StoredSessionSummary {
    pub id: String,
    pub created_at_ms: i64,
    pub mode: String,
    pub engine: String,
    pub model: String,
    pub duration_ms: u64,
    pub source_path: String,
    pub has_transcript: bool,
    pub has_audio: bool,
    pub segment_count: u64,
}

/// What was deleted from the history.
#[derive(Debug, Clone, Copy, PartialEq, Eq, Structural)]
pub struct PruneResult {
    pub sessions_deleted: u64,
    pub segments_deleted: u64,
    pub audio_files_deleted: u64,
}

/// A row for a stretch of speech. Numbers are stored signed, bit for bit.
#[derive(Debug)]
pub struct SegmentRow {
    pub segment_index: i64,
    pub start_ms: i64,
    pub end_ms: i64,
    pub text: Option<String>,
}

/// A row for a transcript, with those for its speech. Numbers are stored signed, bit
/// for bit.
#[derive(Debug)]
pub struct SessionRow {
    pub id: String,
    pub created_at_ms: i64,
    pub mode: String,
    pub engine: String,
    pub model: String,
    pub duration_ms: i64,
    pub source_path: String,
    pub normalized_sample_rate_hz: i64,
    pub normalized_channels: i64,
    pub raw_text: Option<String>,
    pub final_text: Option<String>,
    pub audio_path: Option<String>,
    pub segments: Vec<SegmentRow>,
}

/// The id of a transcript that is saved at a time.
pub fn history_session_id(nanos: u128) -> (r: String)
    ensures
        r@ == "s"@ + decimal(nanos as nat),
{
    cat2("s", &u128_text(nanos))
}

/// Where the audio of a transcript is kept, if it is.
pub open spec fn kept_audio(
    audio_dir: Seq<char>,
    keep: bool,
    audio: Option<Seq<char>>,
    id: Seq<char>,
) -> Option<Seq<char>> {
    match audio {
        Some(path) => if keep {
            Some(
                joined(
                    audio_dir,
                    id + "."@ + (match extension(path) {
                        Some(e) => e,
                        None => "wav"@,
                    }),
                ),
            )
        } else {
            None
        },
        None => None,
    }
}

/// Where the audio of a transcript is kept, if it is: under the id of the transcript,
/// with the extension that it has.
pub fn retained_audio_path(
    paths: &ConfigPaths,
    retention: &RetentionConfig,
    audio_path: &Option<String>,
    session_id: &str,
) -> (r: Option<String>)
    ensures
        opt_text(r) == kept_audio(
            paths.audio_dir@,
            retention.audio,
            opt_text(*audio_path),
            session_id@,
        ),
{
    if !retention.audio {
        return None;
    }
    match audio_path {
        Some(path) => {
            let extension = match path_extension(path) {
                Some(e) => e,
                None => "wav".to_owned(),
            };
            Some(join_path(&paths.audio_dir, &cat3(session_id, ".", &extension)))
        },
        None => None,
    }
}

/// Whether `r` is the row for segment `i`.
pub open spec fn is_segment_row(keep: bool, s: Segment, i: int, r: SegmentRow) -> bool {
    &&& r.segment_index == i as i64
    &&& r.start_ms == s.start_ms as i64
    &&& r.end_ms == s.end_ms as i64
    &&& opt_text(r.text) == kept(keep, s.text@)
}

/// Whether `r` is the row for a transcript: without metadata its source is not told,
/// without transcripts its text is not. Its mode is stored in quotes and lower case.
pub open spec fn is_session_row(
    p: RetentionConfig,
    t: TranscriptOutput,
    id: Seq<char>,
    created_at_ms: i64,
    audio: Option<Seq<char>>,
    r: SessionRow,
) -> bool {
    &&& r.id@ == id
    &&& r.created_at_ms == created_at_ms
    &&& r.mode@ == lower(quoted(t.mode@))
    &&& r.engine@ == t.engine@
    &&& r.model@ == t.model@
    &&& r.duration_ms == t.duration_ms as i64
    &&& r.source_path@ == if p.metadata {
        t.source.path@
    } else {
        "<redacted>"@
    }
    &&& r.normalized_sample_rate_hz == if p.metadata {
        t.source.normalized_sample_rate_hz as int
    } else {
        0
    }
    &&& r.normalized_channels == if p.metadata {
        t.source.normalized_channels as int
    } else {
        0
    }
    &&& opt_text(r.raw_text) == kept(p.transcripts, t.raw_text@)
    &&& opt_text(r.final_text) == kept(p.transcripts, t.final_text@)
    &&& opt_text(r.audio_path) == audio
    &&& r.segments@.len() == t.segments@.len()
    &&& forall|i: int|
        0 <= i < t.segments@.len() ==> is_segment_row(
            p.transcripts,
            t.segments@[i],
            i,
            #[trigger] r.segments@[i],
        )
}

/// A text where it is kept.
fn keep_text(keep: bool, text: &str) -> (r: Option<String>)
    ensures
        opt_text(r) == kept(keep, text@),
{
    if keep {
        Some(text.to_owned())
    } else {
        None
    }
}

/// The rows for the speech of a transcript.
fn segment_rows(keep: bool, segments: &Vec<Segment>) -> (r: Vec<SegmentRow>)
    ensures
        r@.len() == segments@.len(),
        forall|i: int|
            0 <= i < segments@.len() ==> is_segment_row(
                keep,
                segments@[i],
                i,
                #[trigger] r@[i],
            ),
{
    let mut r: Vec<SegmentRow> = Vec::new();
    let mut i: usize = 0;
    while i < segments.len()
        invariant
            i <= segments@.len(),
            r@.len() == i,
            forall|j: int|
                0 <= j < i ==> is_segment_row(keep, segments@[j], j, #[trigger] r@[j]),
        decreases segments@.len() - i,
    {
        let s = &segments[i];
        r.push(
            SegmentRow {
                segment_index: i as i64,
                start_ms: s.start_ms as i64,
                end_ms: s.end_ms as i64,
                text: keep_text(keep, &s.text),
            },
        );
        i += 1;
    }
    r
}

/// The row for a transcript that is saved.
pub fn session_row(
    retention: &RetentionConfig,
    transcript: &TranscriptOutput,
    session_id: &str,
    created_at_ms: i64,
    audio_path: Option<String>,
) -> (r: SessionRow)
    ensures
        is_session_row(
            *retention,
            *transcript,
            session_id@,
            created_at_ms,
            opt_text(audio_path),
            r,
        ),
{
    let (source_path, rate, channels) = if retention.metadata {
        (
            transcript.source.path.clone(),
            transcript.source.normalized_sample_rate_hz as i64,
            transcript.source.normalized_channels as i64,
        )
    } else {
        ("<redacted>".to_owned(), 0, 0)
    };
    SessionRow {
        id: session_id.to_owned(),
        created_at_ms,
        mode: to_lower(&quote(&transcript.mode)),
        engine: transcript.engine.clone(),
        model: transcript.model.clone(),
        duration_ms: transcript.duration_ms as i64,
        source_path,
        normalized_sample_rate_hz: rate,
        normalized_channels: channels,
        raw_text: keep_text(retention.transcripts, &transcript.raw_text),
        final_text: keep_text(retention.transcripts, &transcript.final_text),
        audio_path,
        segments: segment_rows(retention.transcripts, &transcript.segments),
    }
}

/// Whether `r` is what a row holds.
pub open spec fn is_stored_session(row: SessionRow, r: StoredSession) -> bool {
    &&& r.schema_version@ == SCHEMA_VERSION@
    &&& r.id == row.id
    &&& r.created_at_ms == row.created_at_ms
    &&& r.mode == row.mode
    &&& !r.copied
    &&& r.engine == row.engine
    &&& r.model == row.model
    &&& r.duration_ms == row.duration_ms as u64
    &&& r.source.path == row.source_path
    &&& r.source.normalized_sample_rate_hz == row.normalized_sample_rate_hz as u32
    &&& r.source.normalized_channels == row.normalized_channels as u16
    &&& r.raw_text == row.raw_text
    &&& r.final_text == row.final_text
    &&& r.audio_path == row.audio_path
    &&& r.segments@.len() == row.segments@.len()
    &&& forall|i: int|
        0 <= i < row.segments@.len() ==> is_stored_segment(
            row.segments@[i],
            #[trigger] r.segments@[i],
        )
}

/// Whether `r` is what a row for a stretch of speech holds.
pub open spec fn is_stored_segment(row: SegmentRow, r: StoredSegment) -> bool {
    &&& r.start_ms == row.start_ms as u64
    &&& r.end_ms == row.end_ms as u64
    &&& r.text == row.text
}

/// What a row holds.
pub fn stored_session(row: SessionRow) -> (r: StoredSession)
    ensures
        is_stored_session(row, r),
{
    let ghost rows = row.segments@;
    let mut segments: Vec<StoredSegment> = Vec::new();
    for s in it: row.segments
        invariant
            it.seq() == rows,
            segments@.len() == it.index(),
            forall|i: int|
                0 <= i < it.index() ==> is_stored_segment(rows[i], #[trigger] segments@[i]),
    {
        segments.push(
            StoredSegment {
                start_ms: s.start_ms as u64,
                end_ms: s.end_ms as u64,
                text: s.text,
            },
        );
    }
    StoredSession {
        schema_version: SCHEMA_VERSION.to_owned(),
        id: row.id,
        created_at_ms: row.created_at_ms,
        mode: row.mode,
        copied: false,
        engine: row.engine,
        model: row.model,
        duration_ms: row.duration_ms as u64,
        source: SourceMetadata {
            path: row.source_path,
            normalized_sample_rate_hz: row.normalized_sample_rate_hz as u32,
            normalized_channels: row.normalized_channels as u16,
        },
        raw_text: row.raw_text,
        final_text: row.final_text,
        audio_path: row.audio_path,
        segments,
    }
}

/// The transcript that was asked for, if the history has it.
pub fn show(id: &str, row: Option<SessionRow>) -> (r: Result<StoredSession, ComlinkError>)
    ensures
        match row {
            Some(row) => r matches Ok(s) && is_stored_session(row, s),
            None => r matches Err(ComlinkError::HistoryNotFound(name)) && name@ == id@,
        },
{
    match row {
        Some(row) => Ok(stored_session(row)),
        None => Err(ComlinkError::HistoryNotFound(id.to_owned())),
    }
}

/// What is read back of a transcript is what was saved, as far as it is kept:
/// every number is the same, whatever its size, the source where metadata is kept,
/// and the texts where transcripts are kept and nothing of them otherwise.
pub proof fn law_history_round_trip(
    p: RetentionConfig,
    t: TranscriptOutput,
    id: Seq<char>,
    created_at_ms: i64,
    audio: Option<Seq<char>>,
    row: SessionRow,
    r: StoredSession,
)
    requires
        is_session_row(p, t, id, created_at_ms, audio, row),
        is_stored_session(row, r),
    ensures
        r.id@ == id,
        r.created_at_ms == created_at_ms,
        r.mode@ == lower(quoted(t.mode@)),
        r.duration_ms == t.duration_ms,
        p.metadata ==> r.source.path@ == t.source.path@ && r.source.normalized_sample_rate_hz
            == t.source.normalized_sample_rate_hz && r.source.normalized_channels
            == t.source.normalized_channels,
        !p.metadata ==> r.source.path@ == "<redacted>"@,
        opt_text(r.raw_text) == kept(p.transcripts, t.raw_text@),
        opt_text(r.final_text) == kept(p.transcripts, t.final_text@),
        p.transcripts ==> opt_text(r.raw_text) == Some(t.raw_text@) && opt_text(r.final_text)
            == Some(t.final_text@) && (forall|i: int|
            0 <= i < t.segments@.len() ==> opt_text((#[trigger] r.segments@[i]).text) == Some(
                t.segments@[i].text@,
            )),
        !p.transcripts ==> r.raw_text is None && r.final_text is None && (forall|i: int|
            0 <= i < t.segments@.len() ==> (#[trigger] r.segments@[i]).text is None),
        r.engine@ == t.engine@,
        r.model@ == t.model@,
        opt_text(r.audio_path) == audio,
        r.segments@.len() == t.segments@.len(),
        forall|i: int|
            #![trigger r.segments@[i]]
            0 <= i < t.segments@.len() ==> r.segments@[i].start_ms == t.segments@[i].start_ms
                && r.segments@[i].end_ms == t.segments@[i].end_ms && opt_text(r.segments@[i].text)
                == kept(p.transcripts, t.segments@[i].text@),
{
    lemma_signed_round_trip(t.duration_ms);
    assert forall|i: int| 0 <= i < t.segments@.len() implies (#[trigger] r.segments@[i]).start_ms
        == t.segments@[i].start_ms && r.segments@[i].end_ms == t.segments@[i].end_ms && opt_text(
        r.segments@[i].text,
    ) == kept(p.transcripts, t.segments@[i].text@) by {
        lemma_signed_round_trip(t.segments@[i].start_ms);
        lemma_signed_round_trip(t.segments@[i].end_ms);
        assert(is_stored_segment(row.segments@[i], r.segments@[i]));
        assert(is_segment_row(p.transcripts, t.segments@[i], i, row.segments@[i]));
    }
}

/// A number stored signed, bit for bit, is read back.
proof fn lemma_signed_round_trip(n: u64)
    ensures
        (n as i64) as u64 == n,
{
    assert((n as i64) as u64 == n) by (bit_vector);
}

/// What becomes of a transcript once it is made.
#[derive(Debug, Clone, Copy, PartialEq, Eq, Structural)]
pub enum SaveStep {
    /// It is not to be saved.
    Skip,
    /// It was to be saved, but there is no history.
    Disabled,
    /// It is saved.
    Save,
}

/// What becomes of a transcript once it is made.
pub fn save_step(save: bool, history_enabled: bool) -> (r: SaveStep)
    ensures
        r == if !save {
            SaveStep::Skip
        } else if !history_enabled {
            SaveStep::Disabled
        } else {
            SaveStep::Save
        },
{
    if !save {
        SaveStep::Skip
    } else if !history_enabled {
        SaveStep::Disabled
    } else {
        SaveStep::Save
    }
}

/// Audio is kept just where that is asked and there is any, in the audio directory, under
/// the id of the transcript and with the extension it had, or `wav`.
pub proof fn law_audio_is_kept_under_its_id(
    dir: Seq<char>,
    keep: bool,
    audio: Option<Seq<char>>,
    id: Seq<char>,
)
    ensures
        kept_audio(dir, keep, audio, id) is Some <==> keep && audio is Some,
        keep ==> (audio matches Some(path) ==> kept_audio(dir, keep, audio, id) == Some(
            joined(
                dir,
                id + "."@ + (match extension(path) {
                    Some(e) => e,
                    None => "wav"@,
                }),
            ),
        )),
{
}

} // verus!
