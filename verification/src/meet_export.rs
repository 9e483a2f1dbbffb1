//! The segments of a meeting's transcript, its export and the Markdown document
//! made of it.
use vstd::prelude::*;

use crate::asr::Transcript;
use crate::audio::{near_silent_warning, near_silent_warning_message};
use crate::meet::{
    are_exported, shown, streams_summary, InactivityAutoStop, MeetSourceMode,
    MeetingRetentionPolicy, MeetingSessionState, MeetingSourceLabel, MeetingSourceMetadata,
    MeetingSourceStream, MEETING_SCHEMA_VERSION,
};
use crate::numbers::{
    bool_text, bool_word, decimal, decimal_int, i64_text, three_digit_text, three_digits,
    two_digit_text, two_digits, u64_text, usize_text,
};
use crate::ordering::{
    lemma_ranked, lemma_ranked_places, lemma_text_le_total, lemma_text_le_transitive, ranked,
    sort_ranked, str_le, text_le, Ranked,
};
use crate::output::{
    field_line, lemma_warning_listed, opt_field_line, push_field, push_opt_field, push_warnings,
    source_audio, source_audio_text, step_names, warnings_section, ProcessingStep,
    TextProcessingResult,
};
use crate::paths::{file_name, path_file_name};
use crate::repetition::{
    collapse_repetition_loops, collapsed, has_repetition_loop, markers, non_speech_marker_count,
    repetition_loop,
};
use crate::strings::{
    all_said, all_trimmed, cat2, cat3, cat4, cat5, cat7, cat8, contains, copy_opt, copy_strings,
    drop_empty, is_white, join, lemma_holds, lemma_holds_trim_end, lemma_holds_within,
    lemma_said_join, lemma_said_trimmed, lemma_said_white, lemma_texts_push, lower, nonempty,
    opt_text, said, str_contains, str_join, str_trim, str_trim_end, texts, to_lower, trim, trim_all,
    trim_end,
};

verus! {

/// What was recognised in one chunk of a meeting.
#[derive(Debug, Clone)]
pub struct ChunkTranscript {
    pub chunk_index: usize,
    pub chunk_path: String,
    pub source_label: MeetingSourceLabel,
    pub source_device: String,
    pub chunk_start_ms: u64,
    pub chunk_duration_ms: u64,
    pub transcript: Transcript,
}

/// A stretch of speech in meeting time.
#[derive(Debug, Clone, PartialEq, Eq)]
pub struct MeetingSegment {
    pub segment_index: usize,
    pub chunk_index: usize,
    pub start_ms: u64,
    pub end_ms: u64,
    pub source_label: MeetingSourceLabel,
    pub source_device: String,
    pub text: String,
    pub chunk_path: String,
}

/// How segments came about.
#[derive(Debug, PartialEq, Eq)]
pub struct MeetingSegmenting {
    pub strategy: String,
    pub vad_available: bool,
    pub detail: String,
}

impl Clone for MeetingSegmenting {
    fn clone(&self) -> (r: Self)
        ensures
            r == *self,
    {
        MeetingSegmenting {
            strategy: self.strategy.clone(),
            vad_available: self.vad_available,
            detail: self.detail.clone(),
        }
    }
}

/// The segments of a meeting and how they came about.
#[derive(Debug, Clone, PartialEq, Eq)]
pub struct SegmentBuildResult {
    pub segments: Vec<MeetingSegment>,
    pub segmenting: MeetingSegmenting,
}

/// What a segment holds, but for its number.
pub struct Placed {
    pub chunk_index: int,
    pub start_ms: int,
    pub end_ms: int,
    pub source_label: MeetingSourceLabel,
    pub source_device: Seq<char>,
    pub text: Seq<char>,
    pub chunk_path: Seq<char>,
}

impl MeetingSegment {
    /// What the segment holds.
    pub open spec fn placed(self) -> Placed {
        Placed {
            chunk_index: self.chunk_index as int,
            start_ms: self.start_ms as int,
            end_ms: self.end_ms as int,
            source_label: self.source_label,
            source_device: self.source_device@,
            text: self.text@,
            chunk_path: self.chunk_path@,
        }
    }
}

/// The sum, or the largest number there is.
pub open spec fn capped_sum(a: int, b: int) -> int {
    if a + b > u64::MAX {
        u64::MAX as int
    } else {
        a + b
    }
}

/// The smaller number.
pub open spec fn least(a: int, b: int) -> int {
    if a <= b {
        a
    } else {
        b
    }
}

/// A time within a chunk, in meeting time; a time past its end counts as its end.
pub open spec fn meeting_time(c: ChunkTranscript, ms: int) -> int {
    capped_sum(c.chunk_start_ms as int, least(ms, c.chunk_duration_ms as int))
}

/// The end of a segment: never before its start, so that it has a length.
pub open spec fn end_time(start: int, end: int) -> int {
    if end <= start {
        capped_sum(start, 1)
    } else {
        end
    }
}

/// How many stretches of speech a chunk holds: one where none is timed.
pub open spec fn stretch_count(c: ChunkTranscript) -> int {
    if c.transcript.segments@.len() == 0 {
        1
    } else {
        c.transcript.segments@.len() as int
    }
}

/// A stretch of speech of a chunk: its start, its end and its text.
pub open spec fn stretch(c: ChunkTranscript, i: int) -> (int, int, Seq<char>) {
    if c.transcript.segments@.len() == 0 {
        (0, c.chunk_duration_ms as int, c.transcript.text@)
    } else {
        let s = c.transcript.segments@[i];
        (s.start_ms as int, s.end_ms as int, s.text@)
    }
}

/// A stretch of speech of a chunk, placed in the meeting.
pub open spec fn placed_stretch(c: ChunkTranscript, s: (int, int, Seq<char>)) -> Placed {
    let start = meeting_time(c, s.0);
    Placed {
        chunk_index: c.chunk_index as int,
        start_ms: start,
        end_ms: end_time(start, meeting_time(c, s.1)),
        source_label: c.source_label,
        source_device: c.source_device@,
        text: trim(s.2),
        chunk_path: c.chunk_path@,
    }
}

/// The first `n` stretches of speech of a chunk, without those that are blank.
pub open spec fn placed_in_chunk(c: ChunkTranscript, n: int) -> Seq<Placed>
    decreases n,
{
    if n <= 0 {
        Seq::empty()
    } else {
        let rest = placed_in_chunk(c, n - 1);
        let s = stretch(c, n - 1);
        if trim(s.2).len() == 0 {
            rest
        } else {
            rest.push(placed_stretch(c, s))
        }
    }
}

/// The speech of the first `n` chunks.
pub open spec fn placed_in_chunks(c: Seq<ChunkTranscript>, n: int) -> Seq<Placed>
    decreases n,
{
    if n <= 0 {
        Seq::empty()
    } else {
        placed_in_chunks(c, n - 1) + placed_in_chunk(c[n - 1], stretch_count(c[n - 1]))
    }
}

/// What segments hold.
pub open spec fn all_placed(s: Seq<MeetingSegment>) -> Seq<Placed> {
    Seq::new(s.len(), |i: int| s[i].placed())
}

/// Whether `s` are the segments of chunks, in the sequence of the chunks.
pub open spec fn are_placed(c: Seq<ChunkTranscript>, s: Seq<MeetingSegment>) -> bool {
    all_placed(s) == placed_in_chunks(c, c.len() as int)
}

/// Whether the recogniser timed speech within a chunk.
pub open spec fn is_timed(c: ChunkTranscript) -> bool {
    let s = c.transcript.segments@;
    ||| s.len() > 1
    ||| exists|i: int|
        0 <= i < s.len() && (#[trigger] s[i]).start_ms > 0 || 0 <= i < s.len()
            && s[i].end_ms < c.chunk_duration_ms - 1
}

/// Whether the recogniser timed speech within one of the chunks.
pub open spec fn any_timed(c: Seq<ChunkTranscript>) -> bool {
    exists|i: int| 0 <= i < c.len() && is_timed(#[trigger] c[i])
}

impl Ranked for MeetingSegment {
    open spec fn precedes(self, other: Self) -> bool {
        if self.start_ms != other.start_ms {
            self.start_ms < other.start_ms
        } else if self.end_ms != other.end_ms {
            self.end_ms < other.end_ms
        } else if self.source_label.name() != other.source_label.name() {
            text_le(self.source_label.name(), other.source_label.name())
        } else {
            text_le(self.chunk_path@, other.chunk_path@)
        }
    }

    proof fn lemma_order(a: Self, b: Self, c: Self) {
        lemma_text_le_total(a.source_label.name(), b.source_label.name());
        lemma_text_le_total(b.source_label.name(), a.source_label.name());
        lemma_text_le_total(b.source_label.name(), c.source_label.name());
        lemma_text_le_total(a.chunk_path@, b.chunk_path@);
        lemma_text_le_transitive(
            a.source_label.name(),
            b.source_label.name(),
            c.source_label.name(),
        );
        lemma_text_le_transitive(a.chunk_path@, b.chunk_path@, c.chunk_path@);
    }

    fn comes_before(&self, other: &Self) -> bool {
        if self.start_ms != other.start_ms {
            self.start_ms < other.start_ms
        } else if self.end_ms != other.end_ms {
            self.end_ms < other.end_ms
        } else if !crate::strings::str_eq(self.source_label.as_str(), other.source_label.as_str()) {
            str_le(self.source_label.as_str(), other.source_label.as_str())
        } else {
            str_le(&self.chunk_path, &other.chunk_path)
        }
    }
}

/// The segments with their numbers.
pub open spec fn numbered(s: Seq<MeetingSegment>) -> Seq<MeetingSegment> {
    Seq::new(s.len(), |i: int| MeetingSegment { segment_index: i as usize, ..s[i] })
}

/// Whether `r` are the segments of chunks: placed in meeting time, sorted by
/// start, end, source and chunk, and numbered.
pub open spec fn are_segments(c: Seq<ChunkTranscript>, r: Seq<MeetingSegment>) -> bool {
    exists|s: Seq<MeetingSegment>| #[trigger] are_placed(c, s) && r == numbered(ranked(s))
}

/// How the segments of chunks come about.
pub open spec fn is_segmenting(timed: bool, s: MeetingSegmenting) -> bool {
    if timed {
        &&& s.strategy@ == "asr-segments-offset-by-chunk"@
        &&& s.vad_available
        &&& s.detail@
            == "ASR supplied sub-chunk segment timing; Comlink offset it into meeting time"@
    } else {
        &&& s.strategy@ == "chunk-boundaries"@
        &&& !s.vad_available
        &&& s.detail@
            == "ASR did not expose VAD segment timing; Comlink used capture chunk boundaries"@
    }
}

/// A time within a chunk, in meeting time.
fn chunk_time(chunk: &ChunkTranscript, ms: u64) -> (r: u64)
    ensures
        r == meeting_time(*chunk, ms as int),
{
    let within = if ms <= chunk.chunk_duration_ms {
        ms
    } else {
        chunk.chunk_duration_ms
    };
    chunk.chunk_start_ms.saturating_add(within)
}

/// Adds a stretch of speech of a chunk, unless it is blank.
fn push_stretch(
    segments: &mut Vec<MeetingSegment>,
    chunk: &ChunkTranscript,
    start: u64,
    end: u64,
    text: &str,
)
    ensures
        all_placed(final(segments)@) == if trim(text@).len() == 0 {
            all_placed(old(segments)@)
        } else {
            all_placed(old(segments)@).push(
                placed_stretch(*chunk, (start as int, end as int, text@)),
            )
        },
{
    let text = str_trim(text);
    if text.as_str().is_empty() {
        return;
    }
    let start_ms = chunk_time(chunk, start);
    let heard_until = chunk_time(chunk, end);
    let end_ms = if heard_until <= start_ms {
        start_ms.saturating_add(1)
    } else {
        heard_until
    };
    let ghost before = segments@;
    let segment = MeetingSegment {
        segment_index: segments.len(),
        chunk_index: chunk.chunk_index,
        start_ms,
        end_ms,
        source_label: chunk.source_label,
        source_device: chunk.source_device.clone(),
        text,
        chunk_path: chunk.chunk_path.clone(),
    };
    let ghost held = segment.placed();
    segments.push(segment);
    assert(all_placed(segments@) =~= all_placed(before).push(held));
}

/// Adds the speech of a chunk.
fn push_chunk(segments: &mut Vec<MeetingSegment>, chunk: &ChunkTranscript)
    ensures
        all_placed(final(segments)@) == all_placed(old(segments)@) + placed_in_chunk(
            *chunk,
            stretch_count(*chunk),
        ),
{
    let ghost before = all_placed(segments@);
    assert(before + placed_in_chunk(*chunk, 0) =~= before);
    if chunk.transcript.segments.len() == 0 {
        push_stretch(segments, chunk, 0, chunk.chunk_duration_ms, &chunk.transcript.text);
        assert(all_placed(segments@) =~= before + placed_in_chunk(*chunk, 1)) by {
            assert(placed_in_chunk(*chunk, 0) =~= Seq::empty());
        }
        return;
    }
    let mut i: usize = 0;
    while i < chunk.transcript.segments.len()
        invariant
            i <= chunk.transcript.segments@.len(),
            chunk.transcript.segments@.len() > 0,
            all_placed(segments@) == before + placed_in_chunk(*chunk, i as int),
        decreases chunk.transcript.segments@.len() - i,
    {
        let s = &chunk.transcript.segments[i];
        push_stretch(segments, chunk, s.start_ms, s.end_ms, &s.text);
        assert(all_placed(segments@) =~= before + placed_in_chunk(*chunk, i + 1));
        i += 1;
    }
}

/// Whether the recogniser timed speech within a chunk.
fn chunk_is_timed(chunk: &ChunkTranscript) -> (r: bool)
    ensures
        r == is_timed(*chunk),
{
    let segments = &chunk.transcript.segments;
    if segments.len() > 1 {
        return true;
    }
    if segments.len() == 0 {
        return false;
    }
    let s = &segments[0];
    assert(s == chunk.transcript.segments@[0]);
    s.start_ms > 0 || s.end_ms < chunk.chunk_duration_ms.saturating_sub(1)
}

/// Numbers segments.
fn number_segments(segments: Vec<MeetingSegment>) -> (r: Vec<MeetingSegment>)
    ensures
        r@ == numbered(segments@),
{
    let ghost all = segments@;
    let total: usize = segments.len();
    let mut r: Vec<MeetingSegment> = Vec::new();
    for s in it: segments
        invariant
            it.seq() == all,
            total == all.len(),
            r@ =~= numbered(all).take(it.index()),
    {
        let index: usize = r.len();
        r.push(
            MeetingSegment {
                segment_index: index,
                chunk_index: s.chunk_index,
                start_ms: s.start_ms,
                end_ms: s.end_ms,
                source_label: s.source_label,
                source_device: s.source_device,
                text: s.text,
                chunk_path: s.chunk_path,
            },
        );
        assert(r@ =~= numbered(all).take(it.index() + 1));
    }
    assert(numbered(all).take(all.len() as int) =~= numbered(all));
    r
}

/// The segments of a meeting, made of the transcripts of its chunks.
pub fn build_segments_from_chunk_transcripts(chunks: &[ChunkTranscript]) -> (r: SegmentBuildResult)
    ensures
        are_segments(chunks@, r.segments@),
        is_segmenting(any_timed(chunks@), r.segmenting),
{
    let mut segments: Vec<MeetingSegment> = Vec::new();
    let mut timed = false;
    let total: usize = chunks.len();
    let mut i: usize = 0;
    assert(all_placed(segments@) =~= placed_in_chunks(chunks@, 0));
    while i < total
        invariant
            i <= total,
            total == chunks@.len(),
            all_placed(segments@) == placed_in_chunks(chunks@, i as int),
            timed == exists|j: int| 0 <= j < i && is_timed(#[trigger] chunks@[j]),
        decreases total - i,
    {
        if chunk_is_timed(&chunks[i]) {
            timed = true;
            assert(is_timed(chunks@[i as int]));
        }
        push_chunk(&mut segments, &chunks[i]);
        i += 1;
    }
    assert(are_placed(chunks@, segments@));
    let segments = number_segments(sort_ranked(segments));
    let segmenting = if timed {
        MeetingSegmenting {
            strategy: "asr-segments-offset-by-chunk".to_owned(),
            vad_available: true,
            detail: "ASR supplied sub-chunk segment timing; Comlink offset it into meeting time".to_owned(),
        }
    } else {
        MeetingSegmenting {
            strategy: "chunk-boundaries".to_owned(),
            vad_available: false,
            detail: "ASR did not expose VAD segment timing; Comlink used capture chunk boundaries".to_owned(),
        }
    };
    SegmentBuildResult { segments, segmenting }
}

/// Segments stand in the order of their starts, are numbered from nought, and each
/// ends after it starts, but for one that starts at the largest time there is.
pub proof fn law_segments_in_meeting_order(c: Seq<ChunkTranscript>, r: Seq<MeetingSegment>)
    requires
        are_segments(c, r),
        r.len() <= usize::MAX,
    ensures
        forall|i: int, j: int| 0 <= i < j < r.len() ==> r[i].start_ms <= r[j].start_ms,
        forall|i: int| 0 <= i < r.len() ==> (#[trigger] r[i]).segment_index == i,
        forall|i: int|
            0 <= i < r.len() && r[i].start_ms < u64::MAX ==> (#[trigger] r[i]).start_ms < r[i].end_ms,
        forall|i: int| 0 <= i < r.len() ==> (#[trigger] r[i]).text@.len() > 0,
{
    let s = choose|s: Seq<MeetingSegment>|
        #[trigger] are_placed(c, s) && r == numbered(ranked(s));
    lemma_ranked(s);
    let t = ranked(s);
    assert(all_placed(s).len() == s.len());
    assert forall|i: int| 0 <= i < r.len() implies (r[i].start_ms < u64::MAX ==> (
    #[trigger] r[i]).start_ms < r[i].end_ms) && r[i].text@.len() > 0 by {
        broadcast use vstd::seq_lib::group_to_multiset_ensures;

        assert(t.contains(t[i]));
        assert(t.to_multiset().count(t[i]) > 0);
        assert(s.contains(t[i]));
        let k = choose|k: int| 0 <= k < s.len() && s[k] == t[i];
        assert(all_placed(s)[k] == s[k].placed());
        lemma_placed(c, c.len() as int);
    }
    assert forall|i: int, j: int| 0 <= i < j < r.len() implies r[i].start_ms <= r[j].start_ms by {
        assert(t[i].precedes(t[j]));
    }
}

/// Where the first `n` stretches of chunk `i` that are not blank come from.
spec fn origins_in_chunk(c: ChunkTranscript, i: int, n: int) -> Seq<(int, int)>
    decreases n,
{
    if n <= 0 {
        Seq::empty()
    } else if trim(stretch(c, n - 1).2).len() == 0 {
        origins_in_chunk(c, i, n - 1)
    } else {
        origins_in_chunk(c, i, n - 1).push((i, n - 1))
    }
}

/// Where the speech of the first `n` chunks comes from.
spec fn origins_in_chunks(c: Seq<ChunkTranscript>, n: int) -> Seq<(int, int)>
    decreases n,
{
    if n <= 0 {
        Seq::empty()
    } else {
        origins_in_chunks(c, n - 1) + origins_in_chunk(c[n - 1], n - 1, stretch_count(c[n - 1]))
    }
}

/// What is placed in a chunk comes from its stretches, each at most once.
proof fn lemma_origins_in_chunk(c: ChunkTranscript, i: int, n: int)
    ensures
        origins_in_chunk(c, i, n).len() == placed_in_chunk(c, n).len(),
        forall|k: int|
            #![trigger origins_in_chunk(c, i, n)[k]]
            0 <= k < origins_in_chunk(c, i, n).len() ==> {
                let o = origins_in_chunk(c, i, n)[k];
                &&& o.0 == i
                &&& 0 <= o.1 < n
                &&& trim(stretch(c, o.1).2).len() > 0
                &&& placed_in_chunk(c, n)[k] == placed_stretch(c, stretch(c, o.1))
            },
        origins_in_chunk(c, i, n).no_duplicates(),
        forall|j: int|
            0 <= j < n && trim((#[trigger] stretch(c, j)).2).len() > 0 ==> origins_in_chunk(
                c,
                i,
                n,
            ).contains((i, j)),
    decreases n,
{
    if n > 0 {
        lemma_origins_in_chunk(c, i, n - 1);
        let rest = origins_in_chunk(c, i, n - 1);
        let all = origins_in_chunk(c, i, n);
        assert forall|j: int| 0 <= j < n && trim((#[trigger] stretch(c, j)).2).len()
            > 0 implies all.contains((i, j)) by {
            if j < n - 1 {
                let k = choose|k: int| 0 <= k < rest.len() && rest[k] == (i, j);
                assert(all[k] == (i, j));
            } else {
                assert(all[all.len() - 1] == (i, j));
            }
        }
        assert forall|k: int|
            #![trigger all[k]]
            0 <= k < all.len() implies {
            let o = all[k];
            &&& o.0 == i
            &&& 0 <= o.1 < n
            &&& trim(stretch(c, o.1).2).len() > 0
            &&& placed_in_chunk(c, n)[k] == placed_stretch(c, stretch(c, o.1))
        } by {
            if k < rest.len() {
                assert(all[k] == rest[k]);
                assert(placed_in_chunk(c, n)[k] == placed_in_chunk(c, n - 1)[k]);
            }
        }
    }
}

/// What is placed in chunks comes from their stretches, each at most once.
proof fn lemma_origins_in_chunks(c: Seq<ChunkTranscript>, n: int)
    requires
        0 <= n <= c.len(),
    ensures
        origins_in_chunks(c, n).len() == placed_in_chunks(c, n).len(),
        forall|k: int|
            #![trigger origins_in_chunks(c, n)[k]]
            0 <= k < origins_in_chunks(c, n).len() ==> {
                let o = origins_in_chunks(c, n)[k];
                &&& 0 <= o.0 < n
                &&& 0 <= o.1 < stretch_count(c[o.0])
                &&& trim(stretch(c[o.0], o.1).2).len() > 0
                &&& placed_in_chunks(c, n)[k] == placed_stretch(c[o.0], stretch(c[o.0], o.1))
            },
        origins_in_chunks(c, n).no_duplicates(),
        forall|i: int, j: int|
            0 <= i < n && 0 <= j < stretch_count(c[i]) && trim((#[trigger] stretch(c[i], j)).2).len()
                > 0 ==> origins_in_chunks(c, n).contains((i, j)),
    decreases n,
{
    if n > 0 {
        lemma_origins_in_chunks(c, n - 1);
        let x = c[n - 1];
        lemma_origins_in_chunk(x, n - 1, stretch_count(x));
        let rest = origins_in_chunks(c, n - 1);
        let last = origins_in_chunk(x, n - 1, stretch_count(x));
        let all = origins_in_chunks(c, n);
        assert forall|k: int|
            #![trigger all[k]]
            0 <= k < all.len() implies {
            let o = all[k];
            &&& 0 <= o.0 < n
            &&& 0 <= o.1 < stretch_count(c[o.0])
            &&& trim(stretch(c[o.0], o.1).2).len() > 0
            &&& placed_in_chunks(c, n)[k] == placed_stretch(c[o.0], stretch(c[o.0], o.1))
        } by {
            if k < rest.len() {
                assert(all[k] == rest[k]);
            } else {
                assert(all[k] == last[k - rest.len()]);
            }
        }
        assert forall|j: int, k: int| 0 <= j < all.len() && 0 <= k < all.len() && j
            != k implies all[j] != all[k] by {
            if j < rest.len() {
                assert(all[j] == rest[j]);
            } else {
                assert(all[j] == last[j - rest.len()]);
            }
            if k < rest.len() {
                assert(all[k] == rest[k]);
            } else {
                assert(all[k] == last[k - rest.len()]);
            }
        }
        assert forall|i: int, j: int| 0 <= i < n && 0 <= j < stretch_count(c[i]) && trim(
            (#[trigger] stretch(c[i], j)).2,
        ).len() > 0 implies all.contains((i, j)) by {
            if i < n - 1 {
                let k = choose|k: int| 0 <= k < rest.len() && rest[k] == (i, j);
                assert(all[k] == (i, j));
            } else {
                let k = choose|k: int| 0 <= k < last.len() && last[k] == (i, j);
                assert(all[rest.len() + k] == (i, j));
            }
        }
    }
}

/// Each segment is one stretch of speech of one chunk, and each stretch that is not blank
/// gives just one segment. The stretches of a chunk are those that the recogniser timed,
/// each with its own text and times; where it timed none, the chunk is one stretch, with
/// its whole text. A time past the end of the chunk counts as its end, the start of the
/// chunk is added to it, and a segment without length lasts a millisecond.
///
/// `from` gives, for each segment, the chunk and the stretch that it is made of.
pub proof fn law_segments_are_the_speech_of_the_chunks(
    c: Seq<ChunkTranscript>,
    r: Seq<MeetingSegment>,
) -> (from: Seq<(int, int)>)
    requires
        are_segments(c, r),
    ensures
        from.len() == r.len(),
        from.no_duplicates(),
        forall|k: int|
            #![trigger from[k]]
            0 <= k < r.len() ==> {
                let chunk = c[from[k].0];
                let j = from[k].1;
                let heard = chunk.transcript.segments@;
                let length = chunk.chunk_duration_ms as int;
                let (start, end, text) = if heard.len() == 0 {
                    (0, length, chunk.transcript.text@)
                } else {
                    (heard[j].start_ms as int, heard[j].end_ms as int, heard[j].text@)
                };
                let first = chunk.chunk_start_ms + if start <= length {
                    start
                } else {
                    length
                };
                let last = chunk.chunk_start_ms + if end <= length {
                    end
                } else {
                    length
                };
                &&& 0 <= from[k].0 < c.len()
                &&& heard.len() == 0 ==> j == 0
                &&& heard.len() > 0 ==> 0 <= j < heard.len()
                &&& r[k].text@ == trim(text)
                &&& r[k].text@.len() > 0
                &&& r[k].start_ms == first || (first > u64::MAX && r[k].start_ms == u64::MAX)
                &&& last <= u64::MAX && last > first ==> r[k].end_ms == last
                &&& last <= first && first < u64::MAX ==> r[k].end_ms == first + 1
                &&& last > u64::MAX ==> r[k].end_ms == u64::MAX
                &&& r[k].chunk_index == chunk.chunk_index
                &&& r[k].source_label == chunk.source_label
                &&& r[k].source_device@ == chunk.source_device@
                &&& r[k].chunk_path@ == chunk.chunk_path@
            },
        forall|i: int, j: int|
            0 <= i < c.len() && 0 <= j < c[i].transcript.segments@.len() && trim(
                (#[trigger] c[i].transcript.segments@[j]).text@,
            ).len() > 0 ==> from.contains((i, j)),
        forall|i: int|
            0 <= i < c.len() && (#[trigger] c[i]).transcript.segments@.len() == 0 && trim(
                c[i].transcript.text@,
            ).len() > 0 ==> from.contains((i, 0)),
{
    let s = choose|s: Seq<MeetingSegment>|
        #[trigger] are_placed(c, s) && r == numbered(ranked(s));
    let n = c.len() as int;
    lemma_origins_in_chunks(c, n);
    let o = origins_in_chunks(c, n);
    let p = lemma_ranked_places(s);
    assert(all_placed(s).len() == s.len());
    let from = Seq::new(s.len(), |k: int| o[p[k]]);
    assert forall|k: int| 0 <= k < r.len() implies {
        &&& from[k] == o[#[trigger] p[k]]
        &&& r[k].placed() == placed_in_chunks(c, n)[p[k]]
    } by {
        assert(r[k].placed() == ranked(s)[k].placed());
        assert(all_placed(s)[p[k]] == s[p[k]].placed());
    }
    assert forall|a: int, b: int| 0 <= a < from.len() && 0 <= b < from.len() && a
        != b implies from[a] != from[b] by {
        if a < b {
            assert(p[a] != p[b]);
        } else {
            assert(p[b] != p[a]);
        }
    }
    assert forall|i: int, j: int| #[trigger] o.contains((i, j)) implies from.contains((i, j)) by {
        let x = choose|x: int| 0 <= x < o.len() && o[x] == (i, j);
        assert(p.contains(x));
        let k = choose|k: int| 0 <= k < p.len() && p[k] == x;
        assert(from[k] == (i, j));
    }
    assert forall|i: int, j: int| 0 <= i < c.len() && 0 <= j < c[i].transcript.segments@.len()
        && trim((#[trigger] c[i].transcript.segments@[j]).text@).len() > 0 implies from.contains(
        (i, j),
    ) by {
        assert(stretch(c[i], j).2 == c[i].transcript.segments@[j].text@);
        assert(o.contains((i, j)));
    }
    assert forall|i: int| 0 <= i < c.len() && (#[trigger] c[i]).transcript.segments@.len() == 0
        && trim(c[i].transcript.text@).len() > 0 implies from.contains((i, 0)) by {
        assert(stretch(c[i], 0).2 == c[i].transcript.text@);
        assert(o.contains((i, 0)));
    }
    assert forall|k: int|
        #![trigger from[k]]
        0 <= k < r.len() implies {
        let chunk = c[from[k].0];
        let q = stretch(chunk, from[k].1);
        &&& 0 <= from[k].0 < c.len()
        &&& 0 <= from[k].1 < stretch_count(chunk)
        &&& r[k].placed() == placed_stretch(chunk, q)
        &&& trim(q.2).len() > 0
    } by {
        assert(from[k] == o[p[k]]);
    }
    from
}

/// Whether a placed segment has a text and a length.
pub open spec fn is_sound(p: Placed) -> bool {
    p.text.len() > 0 && (p.start_ms < u64::MAX ==> p.start_ms < p.end_ms)
}

/// What is placed in a chunk has a text and a length.
proof fn lemma_placed_in_chunk(c: ChunkTranscript, n: int)
    ensures
        forall|i: int|
            0 <= i < placed_in_chunk(c, n).len() ==> is_sound(#[trigger] placed_in_chunk(c, n)[i]),
    decreases n,
{
    if n > 0 {
        lemma_placed_in_chunk(c, n - 1);
        let rest = placed_in_chunk(c, n - 1);
        assert forall|i: int| 0 <= i < placed_in_chunk(c, n).len() implies is_sound(
            #[trigger] placed_in_chunk(c, n)[i],
        ) by {
            if i < rest.len() {
                assert(placed_in_chunk(c, n)[i] == rest[i]);
            }
        }
    }
}

/// What is placed in chunks has a text and a length.
proof fn lemma_placed(c: Seq<ChunkTranscript>, n: int)
    ensures
        forall|i: int|
            0 <= i < placed_in_chunks(c, n).len() ==> is_sound(
                #[trigger] placed_in_chunks(c, n)[i],
            ),
    decreases n,
{
    if n > 0 {
        lemma_placed(c, n - 1);
        let last = placed_in_chunk(c[n - 1], stretch_count(c[n - 1]));
        lemma_placed_in_chunk(c[n - 1], stretch_count(c[n - 1]));
        let rest = placed_in_chunks(c, n - 1);
        assert forall|i: int| 0 <= i < placed_in_chunks(c, n).len() implies is_sound(
            #[trigger] placed_in_chunks(c, n)[i],
        ) by {
            if i < rest.len() {
                assert(placed_in_chunks(c, n)[i] == rest[i]);
            } else {
                assert(placed_in_chunks(c, n)[i] == last[i - rest.len()]);
            }
        }
    }
}

/// The texts of segments.
pub open spec fn segment_texts(s: Seq<MeetingSegment>) -> Seq<Seq<char>> {
    Seq::new(s.len(), |i: int| s[i].text@)
}

/// The whole text of segments: a line for each that is not blank.
pub open spec fn raw_text(s: Seq<MeetingSegment>) -> Seq<char> {
    join(nonempty(all_trimmed(segment_texts(s))), "\n"@)
}

/// The texts of segments.
fn texts_of(segments: &[MeetingSegment]) -> (r: Vec<String>)
    ensures
        texts(r@) == segment_texts(segments@),
{
    let mut r: Vec<String> = Vec::new();
    let total: usize = segments.len();
    let mut i: usize = 0;
    while i < total
        invariant
            i <= total,
            total == segments@.len(),
            texts(r@) =~= segment_texts(segments@).take(i as int),
        decreases total - i,
    {
        broadcast use lemma_texts_push;

        r.push(segments[i].text.clone());
        assert(texts(r@) =~= segment_texts(segments@).take(i + 1));
        i += 1;
    }
    assert(texts(r@) =~= segment_texts(segments@));
    r
}

/// The whole text of segments.
pub fn raw_text_from_segments(segments: &[MeetingSegment]) -> (r: String)
    ensures
        r@ == raw_text(segments@),
{
    str_join(&drop_empty(trim_all(&texts_of(segments))), "\n")
}

/// Where what is kept of a meeting lies.
#[derive(Debug)]
pub struct MeetingArtifacts {
    pub session_dir: String,
    pub segments_jsonl: String,
    pub json_export: String,
    pub markdown_export: String,
    pub chunks_dir: Option<String>,
}

impl Clone for MeetingArtifacts {
    fn clone(&self) -> (r: Self)
        ensures
            r.session_dir == self.session_dir,
            r.segments_jsonl == self.segments_jsonl,
            r.json_export == self.json_export,
            r.markdown_export == self.markdown_export,
            opt_text(r.chunks_dir) == opt_text(self.chunks_dir),
    {
        MeetingArtifacts {
            session_dir: self.session_dir.clone(),
            segments_jsonl: self.segments_jsonl.clone(),
            json_export: self.json_export.clone(),
            markdown_export: self.markdown_export.clone(),
            chunks_dir: copy_opt(&self.chunks_dir),
        }
    }
}

/// The level of a meeting's audio: the mean and the peak in dBFS with one decimal.
#[derive(Debug, PartialEq, Eq)]
pub struct MeetingAudioLevel {
    pub mean_dbfs: String,
    pub peak_dbfs: String,
    pub near_silent: bool,
}

impl Clone for MeetingAudioLevel {
    fn clone(&self) -> (r: Self)
        ensures
            r == *self,
    {
        MeetingAudioLevel {
            mean_dbfs: self.mean_dbfs.clone(),
            peak_dbfs: self.peak_dbfs.clone(),
            near_silent: self.near_silent,
        }
    }
}

/// The session as an export shows it.
#[derive(Debug, Clone)]
pub struct MeetingExportSession {
    pub session_id: String,
    pub status: String,
    pub started_at_ms: i64,
    pub stopped_at_ms: Option<i64>,
    pub duration_ms: u64,
    pub mode: String,
    pub source: String,
    pub source_mode: MeetSourceMode,
    pub source_streams: Vec<MeetingSourceStream>,
    pub chunk_duration_ms: u64,
    pub sample_rate_hz: u32,
    pub channels: u16,
    pub engine: String,
    pub model: String,
    pub segment_count: usize,
    pub inactivity_auto_stop: InactivityAutoStop,
}

/// A segment as an export shows it.
#[derive(Debug, Clone)]
pub struct MeetingSegmentExport {
    pub segment_index: usize,
    pub chunk_index: usize,
    pub start_ms: u64,
    pub end_ms: u64,
    pub source_label: MeetingSourceLabel,
    pub source_device: Option<String>,
    pub text: Option<String>,
    pub chunk_path: Option<String>,
}

/// What is kept of a meeting.
#[derive(Debug, Clone)]
pub struct MeetingExport {
    pub schema_version: String,
    pub session: MeetingExportSession,
    pub source: MeetingSourceMetadata,
    pub retention: MeetingRetentionPolicy,
    pub segmenting: MeetingSegmenting,
    pub artifacts: MeetingArtifacts,
    pub audio_level: Option<MeetingAudioLevel>,
    pub raw_text: Option<String>,
    pub final_text: Option<String>,
    pub processing_steps: Vec<String>,
    pub warnings: Vec<String>,
    pub segments: Vec<MeetingSegmentExport>,
}

/// Whether `a` says where the session's artifacts lie; the audio just where it is
/// kept.
pub open spec fn are_artifacts(s: MeetingSessionState, a: MeetingArtifacts) -> bool {
    &&& a.session_dir == s.session_dir
    &&& a.segments_jsonl == s.segments_jsonl_path
    &&& a.json_export == s.json_export_path
    &&& a.markdown_export == s.markdown_export_path
    &&& opt_text(a.chunks_dir) == if s.retention.audio {
        Some(s.chunks_dir@)
    } else {
        None
    }
}

/// Where a session's artifacts lie.
pub fn session_artifacts(session: &MeetingSessionState) -> (r: MeetingArtifacts)
    ensures
        are_artifacts(*session, r),
{
    MeetingArtifacts {
        session_dir: session.session_dir.clone(),
        segments_jsonl: session.segments_jsonl_path.clone(),
        json_export: session.json_export_path.clone(),
        markdown_export: session.markdown_export_path.clone(),
        chunks_dir: if session.retention.audio {
            Some(session.chunks_dir.clone())
        } else {
            None
        },
    }
}

/// The name by which a model goes: the last part of its path, in lower case.
pub open spec fn model_name(path: Seq<char>) -> Seq<char> {
    lower(
        match file_name(path) {
            Some(name) => name,
            None => path,
        },
    )
}

/// A list with one text where something holds, or an empty one.
pub open spec fn text_if(b: bool, text: Seq<char>) -> Seq<Seq<char>> {
    if b {
        seq![text]
    } else {
        Seq::empty()
    }
}

/// What speaks against a transcript: a tiny model, markers of what is no speech,
/// and a repeated phrase.
pub open spec fn quality_warnings(model_path: Seq<char>, text: Seq<char>) -> Seq<Seq<char>> {
    text_if(
        contains(model_name(model_path), "tiny"@),
        "meeting was transcribed with a tiny Whisper model; noisy rooms usually need base.en, small.en, or larger for usable quality"@,
    ) + text_if(
        markers(text) > 0,
        "transcript contains non-speech markers such as [BLANK_AUDIO], which usually indicates silence or background-noise hallucination"@,
    ) + text_if(
        repetition_loop(text),
        "transcript contains a repeated phrase loop; review the recording environment or rerun with a larger Whisper model"@,
    )
}

/// Adds a text where something holds.
pub fn push_if(list: &mut Vec<String>, b: bool, text: &str)
    ensures
        texts(final(list)@) == texts(old(list)@) + text_if(b, text@),
{
    if b {
        broadcast use lemma_texts_push;

        let ghost before = list@;
        list.push(text.to_owned());
        assert(texts(list@) =~= texts(before) + seq![text@]);
    } else {
        assert(texts(list@) + Seq::<Seq<char>>::empty() =~= texts(list@));
    }
}

/// Adds what speaks against a transcript.
fn push_quality_warnings(
    warnings: &mut Vec<String>,
    session: &MeetingSessionState,
    segments: &[MeetingSegment],
)
    ensures
        texts(final(warnings)@) == texts(old(warnings)@) + quality_warnings(
            session.model_path@,
            join(segment_texts(segments@), "\n"@),
        ),
{
    let ghost before = texts(warnings@);
    let name = match path_file_name(&session.model_path) {
        Some(name) => to_lower(&name),
        None => to_lower(&session.model_path),
    };
    push_if(
        warnings,
        str_contains(&name, "tiny"),
        "meeting was transcribed with a tiny Whisper model; noisy rooms usually need base.en, small.en, or larger for usable quality",
    );
    let text = str_join(&texts_of(segments), "\n");
    push_if(
        warnings,
        non_speech_marker_count(&text) > 0,
        "transcript contains non-speech markers such as [BLANK_AUDIO], which usually indicates silence or background-noise hallucination",
    );
    push_if(
        warnings,
        has_repetition_loop(&text),
        "transcript contains a repeated phrase loop; review the recording environment or rerun with a larger Whisper model",
    );
    assert(texts(warnings@) =~= before + quality_warnings(
        session.model_path@,
        join(segment_texts(segments@), "\n"@),
    ));
}

/// Whether a loop is collapsed in one of the segments.
pub open spec fn any_collapsed(s: Seq<MeetingSegment>) -> bool {
    exists|i: int| 0 <= i < s.len() && collapsed((#[trigger] s[i]).text@).1
}

/// Whether a loop is collapsed in the final text or in a segment.
pub open spec fn has_collapse(final_text: Seq<char>, s: Seq<MeetingSegment>) -> bool {
    collapsed(final_text).1 || any_collapsed(s)
}

/// The warnings of an export, in their sequence: those of the text processing, a
/// near-silent recording, those on quality, and that loops were collapsed.
pub open spec fn export_warnings(
    session: MeetingSessionState,
    s: Seq<MeetingSegment>,
    processed: TextProcessingResult,
    level: Option<MeetingAudioLevel>,
) -> Seq<Seq<char>> {
    texts(processed.warnings@) + (match level {
        Some(l) => text_if(l.near_silent, near_silent_warning(l.mean_dbfs@)),
        None => Seq::empty(),
    }) + quality_warnings(session.model_path@, join(segment_texts(s), "\n"@)) + text_if(
        has_collapse(processed.final_text@, s),
        "repeated phrase loops were collapsed in final transcript and segment text; raw_text preserves the original ASR output"@,
    )
}

/// A text where it is kept.
pub open spec fn kept(keep: bool, text: Seq<char>) -> Option<Seq<char>> {
    if keep {
        Some(text)
    } else {
        None
    }
}

/// Whether `r` is a segment as it is exported: the device, the text and the path
/// stand in it just where metadata, transcripts and audio are kept, and loops in
/// the text are collapsed.
pub open spec fn is_exported_segment(
    p: MeetingRetentionPolicy,
    s: MeetingSegment,
    r: MeetingSegmentExport,
) -> bool {
    &&& r.segment_index == s.segment_index
    &&& r.chunk_index == s.chunk_index
    &&& r.start_ms == s.start_ms
    &&& r.end_ms == s.end_ms
    &&& r.source_label == s.source_label
    &&& opt_text(r.source_device) == kept(p.metadata, s.source_device@)
    &&& opt_text(r.text) == kept(p.transcripts, collapsed(s.text@).0)
    &&& opt_text(r.chunk_path) == kept(p.audio, s.chunk_path@)
}

/// Whether `r` are segments as they are exported.
pub open spec fn are_exported_segments(
    p: MeetingRetentionPolicy,
    s: Seq<MeetingSegment>,
    r: Seq<MeetingSegmentExport>,
) -> bool {
    r.len() == s.len() && forall|i: int|
        0 <= i < s.len() ==> is_exported_segment(p, s[i], #[trigger] r[i])
}

/// Whether `r` is the session as it is exported.
pub open spec fn is_exported_session(
    s: MeetingSessionState,
    mode: String,
    segment_count: nat,
    r: MeetingExportSession,
) -> bool {
    &&& r.session_id == s.session_id
    &&& r.status@ == s.status.name()
    &&& r.started_at_ms == s.started_at_ms
    &&& r.stopped_at_ms == s.stopped_at_ms
    &&& r.duration_ms == match s.duration_ms {
        Some(ms) => ms,
        None => 0,
    }
    &&& r.mode == mode
    &&& exists|streams: Seq<MeetingSourceStream>|
        #[trigger] are_exported(s.source.streams@, s.retention.metadata, streams) && r.source@
            == shown(streams_summary(streams), s.retention.metadata)
    &&& r.source_mode == s.source.mode
    &&& are_exported(s.source.streams@, s.retention.metadata, r.source_streams@)
    &&& r.chunk_duration_ms == s.chunk_duration_ms
    &&& r.sample_rate_hz == s.sample_rate_hz
    &&& r.channels == s.channels
    &&& r.engine == s.engine
    &&& r.model@ == shown(s.model@, s.retention.metadata)
    &&& r.segment_count == segment_count
    &&& r.inactivity_auto_stop == s.inactivity_auto_stop
}

/// Whether `e` is the export of a session.
pub open spec fn is_export(
    session: MeetingSessionState,
    s: Seq<MeetingSegment>,
    raw: Seq<char>,
    processed: TextProcessingResult,
    segmenting: MeetingSegmenting,
    level: Option<MeetingAudioLevel>,
    e: MeetingExport,
) -> bool {
    &&& e.schema_version@ == MEETING_SCHEMA_VERSION@
    &&& is_exported_session(session, processed.mode, s.len(), e.session)
    &&& e.source.mode == session.source.mode
    &&& are_exported(session.source.streams@, session.retention.metadata, e.source.streams@)
    &&& e.retention == session.retention
    &&& e.segmenting == segmenting
    &&& are_artifacts(session, e.artifacts)
    &&& e.audio_level == level
    &&& opt_text(e.raw_text) == kept(session.retention.transcripts, raw)
    &&& opt_text(e.final_text) == kept(
        session.retention.transcripts,
        collapsed(processed.final_text@).0,
    )
    &&& texts(e.processing_steps@) == step_names(processed.processing_steps@) + text_if(
        has_collapse(processed.final_text@, s),
        "meeting-repetition-loop-collapse"@,
    )
    &&& texts(e.warnings@) == export_warnings(session, s, processed, level)
    &&& are_exported_segments(session.retention, s, e.segments@)
}

/// A text where it is kept.
fn keep(retain: bool, text: &str) -> (r: Option<String>)
    ensures
        opt_text(r) == kept(retain, text@),
{
    if retain {
        Some(text.to_owned())
    } else {
        None
    }
}

/// The segments as they are exported, and whether a loop was collapsed in one.
fn export_segments(policy: &MeetingRetentionPolicy, segments: &[MeetingSegment]) -> (r: (
    Vec<MeetingSegmentExport>,
    bool,
))
    ensures
        are_exported_segments(*policy, segments@, r.0@),
        r.1 == any_collapsed(segments@),
{
    let mut out: Vec<MeetingSegmentExport> = Vec::new();
    let mut any = false;
    let total: usize = segments.len();
    let mut i: usize = 0;
    while i < total
        invariant
            i <= total,
            total == segments@.len(),
            out@.len() == i,
            forall|j: int|
                0 <= j < i ==> is_exported_segment(*policy, segments@[j], #[trigger] out@[j]),
            any == exists|j: int| 0 <= j < i && collapsed((#[trigger] segments@[j]).text@).1,
        decreases total - i,
    {
        let s = &segments[i];
        let (text, collapsed_here) = collapse_repetition_loops(&s.text);
        assert(s == segments@[i as int]);
        if collapsed_here {
            any = true;
        }
        out.push(
            MeetingSegmentExport {
                segment_index: s.segment_index,
                chunk_index: s.chunk_index,
                start_ms: s.start_ms,
                end_ms: s.end_ms,
                source_label: s.source_label,
                source_device: keep(policy.metadata, &s.source_device),
                text: keep(policy.transcripts, &text),
                chunk_path: keep(policy.audio, &s.chunk_path),
            },
        );
        i += 1;
    }
    (out, any)
}

/// The names of steps.
fn names_of(steps: &Vec<ProcessingStep>) -> (r: Vec<String>)
    ensures
        texts(r@) == step_names(steps@),
{
    let mut r: Vec<String> = Vec::new();
    let mut i: usize = 0;
    while i < steps.len()
        invariant
            i <= steps@.len(),
            texts(r@) =~= step_names(steps@).take(i as int),
        decreases steps@.len() - i,
    {
        broadcast use lemma_texts_push;

        r.push(steps[i].name.clone());
        assert(texts(r@) =~= step_names(steps@).take(i + 1));
        i += 1;
    }
    assert(texts(r@) =~= step_names(steps@));
    r
}

/// The session as it is exported.
fn export_session(session: &MeetingSessionState, mode: &String, segment_count: usize) -> (r:
    MeetingExportSession)
    ensures
        is_exported_session(*session, *mode, segment_count as nat, r),
{
    let retain = session.retention.metadata;
    let metadata = session.source.export_metadata(retain);
    let source = if retain {
        metadata.summary()
    } else {
        "<redacted>".to_owned()
    };
    let model = if retain {
        session.model.clone()
    } else {
        "<redacted>".to_owned()
    };
    assert(are_exported(session.source.streams@, retain, metadata.streams@));
    MeetingExportSession {
        session_id: session.session_id.clone(),
        status: session.status.as_str().to_owned(),
        started_at_ms: session.started_at_ms,
        stopped_at_ms: session.stopped_at_ms,
        duration_ms: match session.duration_ms {
            Some(ms) => ms,
            None => 0,
        },
        mode: mode.clone(),
        source,
        source_mode: session.source.mode,
        source_streams: metadata.streams,
        chunk_duration_ms: session.chunk_duration_ms,
        sample_rate_hz: session.sample_rate_hz,
        channels: session.channels,
        engine: session.engine.clone(),
        model,
        segment_count,
        inactivity_auto_stop: session.inactivity_auto_stop.clone(),
    }
}

/// What is kept of a meeting: its session, its segments and its text, as far as
/// the session's retention policy has them.
pub fn build_export(
    session: &MeetingSessionState,
    segments: &[MeetingSegment],
    raw_text: &str,
    processed: &TextProcessingResult,
    segmenting: MeetingSegmenting,
    audio_level: Option<MeetingAudioLevel>,
) -> (r: MeetingExport)
    ensures
        is_export(*session, segments@, raw_text@, *processed, segmenting, audio_level, r),
{
    let mut warnings = copy_strings(&processed.warnings);
    let ghost first = texts(warnings@);
    if let Some(level) = &audio_level {
        push_if(
            &mut warnings,
            level.near_silent,
            &near_silent_warning_message(&level.mean_dbfs),
        );
    } else {
        assert(first + Seq::<Seq<char>>::empty() =~= first);
    }
    push_quality_warnings(&mut warnings, session, segments);
    let (final_text, final_collapsed) = collapse_repetition_loops(&processed.final_text);
    let (exported, segments_collapsed) = export_segments(&session.retention, segments);
    let collapse = final_collapsed || segments_collapsed;
    push_if(
        &mut warnings,
        collapse,
        "repeated phrase loops were collapsed in final transcript and segment text; raw_text preserves the original ASR output",
    );
    let mut processing_steps = names_of(&processed.processing_steps);
    push_if(&mut processing_steps, collapse, "meeting-repetition-loop-collapse");
    MeetingExport {
        schema_version: MEETING_SCHEMA_VERSION.to_owned(),
        session: export_session(session, &processed.mode, segments.len()),
        source: session.source.export_metadata(session.retention.metadata),
        retention: session.retention.clone(),
        segmenting,
        artifacts: session_artifacts(session),
        audio_level,
        raw_text: keep(session.retention.transcripts, raw_text),
        final_text: keep(session.retention.transcripts, &final_text),
        processing_steps,
        warnings,
        segments: exported,
    }
}

/// An export holds all that its session keeps: with transcripts the raw text as it was
/// heard, the final text, and the text of each segment, collapsed where it loops; with
/// metadata the model and the devices; with audio its place and the path of each chunk.
/// Times, sources and numbers are always there.
pub proof fn law_export_holds_what_is_kept(
    session: MeetingSessionState,
    s: Seq<MeetingSegment>,
    raw: Seq<char>,
    processed: TextProcessingResult,
    segmenting: MeetingSegmenting,
    level: Option<MeetingAudioLevel>,
    e: MeetingExport,
)
    requires
        is_export(session, s, raw, processed, segmenting, level, e),
    ensures
        session.retention.transcripts ==> opt_text(e.raw_text) == Some(raw) && opt_text(
            e.final_text,
        ) == Some(collapsed(processed.final_text@).0) && (forall|i: int|
            0 <= i < s.len() ==> opt_text((#[trigger] e.segments@[i]).text) == Some(
                collapsed(s[i].text@).0,
            )),
        session.retention.metadata ==> e.session.model@ == session.model@ && (forall|i: int|
            0 <= i < session.source.streams@.len() ==> (#[trigger] e.source.streams@[i]).device@
                == session.source.streams@[i].device@ && e.source.streams@[i].label
                == session.source.streams@[i].label) && (forall|i: int|
            0 <= i < s.len() ==> opt_text((#[trigger] e.segments@[i]).source_device) == Some(
                s[i].source_device@,
            )),
        session.retention.audio ==> opt_text(e.artifacts.chunks_dir) == Some(session.chunks_dir@)
            && (forall|i: int|
            0 <= i < s.len() ==> opt_text((#[trigger] e.segments@[i]).chunk_path) == Some(
                s[i].chunk_path@,
            )),
        e.segments@.len() == s.len(),
        forall|i: int|
            0 <= i < s.len() ==> (#[trigger] e.segments@[i]).start_ms == s[i].start_ms
                && e.segments@[i].end_ms == s[i].end_ms && e.segments@[i].source_label
                == s[i].source_label,
        e.session.session_id == session.session_id,
        e.session.started_at_ms == session.started_at_ms,
        e.session.stopped_at_ms == session.stopped_at_ms,
        session.duration_ms matches Some(ms) ==> e.session.duration_ms == ms,
        e.session.segment_count == s.len(),
        e.session.status@ == session.status.name(),
        e.retention == session.retention,
        e.audio_level == level,
        e.segmenting == segmenting,
        e.session.mode == processed.mode,
        e.session.source_mode == session.source.mode && e.source.mode == session.source.mode,
        e.session.engine == session.engine,
        e.session.chunk_duration_ms == session.chunk_duration_ms,
        e.session.sample_rate_hz == session.sample_rate_hz && e.session.channels == session.channels,
        e.artifacts.json_export == session.json_export_path && e.artifacts.markdown_export
            == session.markdown_export_path && e.artifacts.segments_jsonl
            == session.segments_jsonl_path,
        forall|i: int|
            0 <= i < processed.warnings@.len() ==> i < e.warnings@.len() && e.warnings@[i]@
                == (#[trigger] processed.warnings@[i])@,
{
    assert forall|i: int| 0 <= i < processed.warnings@.len() implies i < e.warnings@.len()
        && e.warnings@[i]@ == (#[trigger] processed.warnings@[i])@ by {
        assert(texts(e.warnings@).len() == e.warnings@.len());
        assert(texts(e.warnings@)[i] == texts(processed.warnings@)[i]);
    }
}

/// The raw text says what its segments say, one after the other.
pub proof fn law_raw_text_is_all_that_was_heard(s: Seq<MeetingSegment>)
    ensures
        said(raw_text(s)) == all_said(segment_texts(s)),
{
    let p = segment_texts(s);
    reveal_strlit("\n");
    lemma_said_white("\n"@);
    lemma_said_join(nonempty(all_trimmed(p)), "\n"@);
    lemma_said_trimmed(p);
}

/// A warning about the recording is given just where there is a reason for it: a recording
/// that is near-silent, a model that is called tiny, a marker of what is no speech, words
/// that repeat, a loop that was collapsed.
pub proof fn law_warnings_have_reasons(
    session: MeetingSessionState,
    s: Seq<MeetingSegment>,
    processed: TextProcessingResult,
    level: Option<MeetingAudioLevel>,
)
    ensures
        ({
            let w = export_warnings(session, s, processed, level);
            let text = join(segment_texts(s), "\n"@);
            let quiet = level matches Some(l) && l.near_silent;
            let tiny = contains(model_name(session.model_path@), "tiny"@);
            let noise = markers(text) > 0;
            let repeats = repetition_loop(text);
            let cut = collapsed(processed.final_text@).1 || exists|i: int|
                0 <= i < s.len() && collapsed((#[trigger] s[i]).text@).1;
            w.len() == processed.warnings@.len() + (if quiet {
                1int
            } else {
                0
            }) + (if tiny {
                1int
            } else {
                0
            }) + (if noise {
                1int
            } else {
                0
            }) + (if repeats {
                1int
            } else {
                0
            }) + (if cut {
                1int
            } else {
                0
            })
        }),
{
}

/// An export holds nothing that its session does not keep: without metadata no
/// device and no model, without transcripts no text, without audio no path of it.
pub proof fn law_export_keeps_to_retention(
    session: MeetingSessionState,
    s: Seq<MeetingSegment>,
    raw: Seq<char>,
    processed: TextProcessingResult,
    segmenting: MeetingSegmenting,
    level: Option<MeetingAudioLevel>,
    e: MeetingExport,
)
    requires
        is_export(session, s, raw, processed, segmenting, level, e),
    ensures
        !session.retention.metadata ==> e.session.model@ == "<redacted>"@ && e.session.source@
            == "<redacted>"@ && (forall|i: int|
            0 <= i < e.source.streams@.len() ==> (#[trigger] e.source.streams@[i]).device@
                == "<redacted>"@) && (forall|i: int|
            0 <= i < e.segments@.len() ==> (#[trigger] e.segments@[i]).source_device is None),
        !session.retention.transcripts ==> e.raw_text is None && e.final_text is None && (forall|
            i: int,
        |
            0 <= i < e.segments@.len() ==> (#[trigger] e.segments@[i]).text is None),
        !session.retention.audio ==> e.artifacts.chunks_dir is None && (forall|i: int|
            0 <= i < e.segments@.len() ==> (#[trigger] e.segments@[i]).chunk_path is None),
        forall|i: int|
            0 <= i < e.source.streams@.len() ==> (#[trigger] e.source.streams@[i]).chunks_dir is None
                && e.source.streams@[i].recorder_pid is None
                && e.source.streams@[i].recorder_identity is None,
{
}

/// A time of a meeting as hours, minutes, seconds and milliseconds.
pub open spec fn offset_text(ms: nat) -> Seq<char> {
    two_digits(ms / 3_600_000) + ":"@ + two_digits((ms % 3_600_000) / 60_000) + ":"@ + two_digits(
        (ms % 60_000) / 1_000,
    ) + "."@ + three_digits(ms % 1_000)
}

/// A time of a meeting as hours, minutes, seconds and milliseconds.
pub fn format_offset(ms: u64) -> (r: String)
    ensures
        r@ == offset_text(ms as nat),
{
    cat7(
        &two_digit_text(ms / 3_600_000),
        ":",
        &two_digit_text((ms % 3_600_000) / 60_000),
        ":",
        &two_digit_text((ms % 60_000) / 1_000),
        ".",
        &three_digit_text(ms % 1_000),
    )
}

/// A line for each of the first `n` streams.
pub open spec fn stream_lines(s: Seq<MeetingSourceStream>, n: int) -> Seq<char>
    decreases n,
{
    if n <= 0 {
        Seq::empty()
    } else {
        stream_lines(s, n - 1) + field_line(
            "Source stream"@,
            s[n - 1].label.name() + ": "@ + s[n - 1].device@,
        )
    }
}

/// A line for each stream.
fn stream_list(streams: &Vec<MeetingSourceStream>) -> (r: String)
    ensures
        r@ == stream_lines(streams@, streams@.len() as int),
{
    let mut r = String::new();
    let mut i: usize = 0;
    while i < streams.len()
        invariant
            i <= streams@.len(),
            r@ == stream_lines(streams@, i as int),
        decreases streams@.len() - i,
    {
        let s = &streams[i];
        push_field(&mut r, "Source stream", &cat3(s.label.as_str(), ": ", &s.device));
        i += 1;
    }
    r
}

/// A text, or a placeholder where it is not kept.
pub open spec fn or_not_retained(o: Option<String>) -> Seq<char> {
    match o {
        Some(text) => text@,
        None => "<not retained>"@,
    }
}

/// A line for each of the first `n` segments.
pub open spec fn segment_lines(s: Seq<MeetingSegmentExport>, n: int) -> Seq<char>
    decreases n,
{
    if n <= 0 {
        Seq::empty()
    } else {
        segment_lines(s, n - 1) + ("- ["@ + offset_text(s[n - 1].start_ms as nat) + " - "@
            + offset_text(s[n - 1].end_ms as nat) + "] "@ + s[n - 1].source_label.name() + ": "@
            + or_not_retained(s[n - 1].text) + "\n"@)
    }
}

/// The section that lists segments.
pub open spec fn segments_text(s: Seq<MeetingSegmentExport>) -> Seq<char> {
    if s.len() == 0 {
        "<none>\n"@
    } else {
        segment_lines(s, s.len() as int)
    }
}

/// The section that lists segments.
fn segment_list(segments: &Vec<MeetingSegmentExport>) -> (r: String)
    ensures
        r@ == segments_text(segments@),
{
    if segments.len() == 0 {
        return "<none>\n".to_owned();
    }
    let mut r = String::new();
    let mut i: usize = 0;
    while i < segments.len()
        invariant
            i <= segments@.len(),
            r@ == segment_lines(segments@, i as int),
        decreases segments@.len() - i,
    {
        let s = &segments[i];
        let text: &str = match &s.text {
            Some(text) => text.as_str(),
            None => "<not retained>",
        };
        let mut line = cat8(
            "- [",
            &format_offset(s.start_ms),
            " - ",
            &format_offset(s.end_ms),
            "] ",
            s.source_label.as_str(),
            ": ",
            text,
        );
        line.append("\n");
        r.append(&line);
        i += 1;
    }
    r
}

/// The first lines on the session.
pub open spec fn session_lines(e: MeetingExport) -> Seq<char> {
    let s = e.session;
    field_line("Schema"@, e.schema_version@) + field_line("Session"@, s.session_id@) + field_line(
        "Status"@,
        s.status@,
    ) + field_line("Started"@, decimal_int(s.started_at_ms as int)) + field_line(
        "Stopped"@,
        match s.stopped_at_ms {
            Some(ms) => decimal_int(ms as int),
            None => "<not stopped>"@,
        },
    ) + field_line("Duration"@, decimal(s.duration_ms as nat) + " ms"@) + field_line(
        "Mode"@,
        s.mode@,
    ) + field_line("Source"@, s.source@) + field_line("Source mode"@, s.source_mode.name())
}

/// The first lines on the session.
fn session_list(export: &MeetingExport) -> (r: String)
    ensures
        r@ == session_lines(*export),
{
    let s = &export.session;
    let stopped = match s.stopped_at_ms {
        Some(ms) => i64_text(ms),
        None => "<not stopped>".to_owned(),
    };
    let mut r = String::new();
    push_field(&mut r, "Schema", &export.schema_version);
    assert(r@ =~= field_line("Schema"@, export.schema_version@));
    push_field(&mut r, "Session", &s.session_id);
    push_field(&mut r, "Status", &s.status);
    push_field(&mut r, "Started", &i64_text(s.started_at_ms));
    push_field(&mut r, "Stopped", &stopped);
    push_field(&mut r, "Duration", &cat2(&u64_text(s.duration_ms), " ms"));
    push_field(&mut r, "Mode", &s.mode);
    push_field(&mut r, "Source", &s.source);
    push_field(&mut r, "Source mode", s.source_mode.as_str());
    r
}

/// The line on the audio level, where it is known.
pub open spec fn level_line(level: Option<MeetingAudioLevel>) -> Seq<char> {
    opt_field_line(
        "Audio level"@,
        match level {
            Some(l) => Some(
                "mean="@ + l.mean_dbfs@ + " dBFS; peak="@ + l.peak_dbfs@ + " dBFS; near_silent="@
                    + bool_word(l.near_silent),
            ),
            None => None,
        },
    )
}

/// The lines on the audio of the session.
pub open spec fn audio_lines(e: MeetingExport) -> Seq<char> {
    let s = e.session;
    field_line("Source audio"@, source_audio_text(s.sample_rate_hz as nat, s.channels as nat))
        + field_line("Chunk duration"@, decimal(s.chunk_duration_ms as nat) + " ms"@) + field_line(
        "Engine"@,
        s.engine@,
    ) + field_line("Model"@, s.model@) + field_line(
        "Segment count"@,
        decimal(s.segment_count as nat),
    ) + field_line(
        "Segmenting"@,
        e.segmenting.strategy@ + "; vad_available="@ + bool_word(e.segmenting.vad_available),
    ) + level_line(e.audio_level) + field_line(
        "Inactivity auto-stop"@,
        "enabled="@ + bool_word(s.inactivity_auto_stop.enabled) + "; "@
            + s.inactivity_auto_stop.reason@,
    )
}

/// The lines on the audio of the session.
fn audio_list(export: &MeetingExport) -> (r: String)
    ensures
        r@ == audio_lines(*export),
{
    let s = &export.session;
    let mut r = String::new();
    push_field(&mut r, "Source audio", &source_audio(s.sample_rate_hz, s.channels));
    assert(r@ =~= field_line(
        "Source audio"@,
        source_audio_text(s.sample_rate_hz as nat, s.channels as nat),
    ));
    push_field(&mut r, "Chunk duration", &cat2(&u64_text(s.chunk_duration_ms), " ms"));
    push_field(&mut r, "Engine", &s.engine);
    push_field(&mut r, "Model", &s.model);
    push_field(&mut r, "Segment count", &usize_text(s.segment_count));
    push_field(
        &mut r,
        "Segmenting",
        &cat3(
            &export.segmenting.strategy,
            "; vad_available=",
            bool_text(export.segmenting.vad_available),
        ),
    );
    let level = match &export.audio_level {
        Some(l) => {
            let mut text = cat5(
                "mean=",
                &l.mean_dbfs,
                " dBFS; peak=",
                &l.peak_dbfs,
                " dBFS; near_silent=",
            );
            text.append(bool_text(l.near_silent));
            Some(text)
        },
        None => None,
    };
    push_opt_field(&mut r, "Audio level", &level);
    push_field(
        &mut r,
        "Inactivity auto-stop",
        &cat4(
            "enabled=",
            bool_text(s.inactivity_auto_stop.enabled),
            "; ",
            &s.inactivity_auto_stop.reason,
        ),
    );
    r
}

/// The lines on what is kept, and where.
pub open spec fn retention_lines(e: MeetingExport) -> Seq<char> {
    field_line("Metadata"@, bool_word(e.retention.metadata)) + field_line(
        "Transcripts"@,
        bool_word(e.retention.transcripts),
    ) + field_line("Audio"@, bool_word(e.retention.audio)) + "\n"@ + "## Artifacts\n\n"@ + field_line(
        "Segments JSONL"@,
        e.artifacts.segments_jsonl@,
    ) + field_line("JSON export"@, e.artifacts.json_export@) + field_line(
        "Markdown export"@,
        e.artifacts.markdown_export@,
    ) + opt_field_line("Audio chunks"@, opt_text(e.artifacts.chunks_dir))
}

/// The lines on what is kept, and where.
fn retention_list(export: &MeetingExport) -> (r: String)
    ensures
        r@ == retention_lines(*export),
{
    let mut r = String::new();
    push_field(&mut r, "Metadata", bool_text(export.retention.metadata));
    assert(r@ =~= field_line("Metadata"@, bool_word(export.retention.metadata)));
    push_field(&mut r, "Transcripts", bool_text(export.retention.transcripts));
    push_field(&mut r, "Audio", bool_text(export.retention.audio));
    r.append("\n");
    r.append("## Artifacts\n\n");
    push_field(&mut r, "Segments JSONL", &export.artifacts.segments_jsonl);
    push_field(&mut r, "JSON export", &export.artifacts.json_export);
    push_field(&mut r, "Markdown export", &export.artifacts.markdown_export);
    push_opt_field(&mut r, "Audio chunks", &export.artifacts.chunks_dir);
    r
}

/// What stands before the text of an export.
pub open spec fn meeting_head(e: MeetingExport) -> Seq<char> {
    "# Comlink Meeting Transcript\n\n"@ + "## Session Metadata\n\n"@ + session_lines(e)
        + stream_lines(e.source.streams@, e.source.streams@.len() as int) + audio_lines(e) + "\n"@
        + "## Retention Policy\n\n"@ + retention_lines(e) + "\n"@
}

/// An export as a Markdown document.
pub open spec fn meeting_markdown(e: MeetingExport) -> Seq<char> {
    trim_end(
        meeting_head(e) + "## Final Transcript\n\n"@ + or_not_retained(e.final_text) + warnings_section(
            texts(e.warnings@),
        ) + "\n\n## Segments\n\n"@ + segments_text(e.segments@),
    )
}

/// An export as a Markdown document.
pub fn render_markdown(export: &MeetingExport) -> (r: String)
    ensures
        r@ == meeting_markdown(*export),
{
    let mut markdown = "# Comlink Meeting Transcript\n\n".to_owned();
    markdown.append("## Session Metadata\n\n");
    markdown.append(&session_list(export));
    markdown.append(&stream_list(&export.source.streams));
    markdown.append(&audio_list(export));
    markdown.append("\n");
    markdown.append("## Retention Policy\n\n");
    markdown.append(&retention_list(export));
    markdown.append("\n");
    markdown.append("## Final Transcript\n\n");
    match &export.final_text {
        Some(text) => markdown.append(text),
        None => markdown.append("<not retained>"),
    }
    push_warnings(&mut markdown, &export.warnings);
    markdown.append("\n\n## Segments\n\n");
    markdown.append(&segment_list(&export.segments));
    str_trim_end(&markdown)
}

/// Each of the first `n` segments has a line of its own.
proof fn lemma_segment_line(s: Seq<MeetingSegmentExport>, n: int, k: int)
    requires
        0 <= k < n <= s.len(),
    ensures
        contains(
            segment_lines(s, n),
            "- ["@ + offset_text(s[k].start_ms as nat) + " - "@ + offset_text(s[k].end_ms as nat)
                + "] "@ + s[k].source_label.name() + ": "@ + or_not_retained(s[k].text),
        ),
    decreases n,
{
    let none = Seq::<char>::empty();
    let x = "- ["@ + offset_text(s[k].start_ms as nat) + " - "@ + offset_text(s[k].end_ms as nat)
        + "] "@ + s[k].source_label.name() + ": "@ + or_not_retained(s[k].text);
    let rest = segment_lines(s, n - 1);
    if k < n - 1 {
        lemma_segment_line(s, n - 1, k);
        let y = segment_lines(s, n).skip(rest.len() as int);
        lemma_holds_within(none, rest, y, x);
        assert(segment_lines(s, n) =~= none + rest + y);
    } else {
        lemma_holds(rest, x, "\n"@);
        assert(segment_lines(s, n) =~= rest + x + "\n"@);
    }
}

/// A document holds its final text and what its last sections hold.
proof fn lemma_meeting_document(head: Seq<char>, text: Seq<char>, w: Seq<char>, g: Seq<char>)
    ensures
        ({
            let doc = trim_end(
                head + "## Final Transcript\n\n"@ + text + w + "\n\n## Segments\n\n"@ + g,
            );
            &&& text.len() > 0 && !is_white(text.last()) ==> contains(
                doc,
                "## Final Transcript\n\n"@ + text,
            )
            &&& forall|x: Seq<char>| #[trigger]
                contains(w, x) && x.len() > 0 && !is_white(x.last()) ==> contains(doc, x)
            &&& forall|x: Seq<char>| #[trigger]
                contains(g, x) && x.len() > 0 && !is_white(x.last()) ==> contains(doc, x)
        }),
{
    let none = Seq::<char>::empty();
    let doc = head + "## Final Transcript\n\n"@ + text + w + "\n\n## Segments\n\n"@ + g;
    let f = "## Final Transcript\n\n"@ + text;
    let tail = "\n\n## Segments\n\n"@ + g;
    if text.len() > 0 && !is_white(text.last()) {
        lemma_holds(head, f, w + tail);
        assert(doc =~= head + f + (w + tail));
        assert(f.last() == text.last());
        lemma_holds_trim_end(doc, f);
    }
    assert forall|x: Seq<char>| #[trigger]
        contains(w, x) && x.len() > 0 && !is_white(x.last()) implies contains(
        trim_end(doc),
        x,
    ) by {
        lemma_holds_within(head + f, w, tail, x);
        assert(doc =~= head + f + w + tail);
        lemma_holds_trim_end(doc, x);
    }
    let before = head + f + w + "\n\n## Segments\n\n"@;
    assert forall|x: Seq<char>| #[trigger]
        contains(g, x) && x.len() > 0 && !is_white(x.last()) implies contains(
        trim_end(doc),
        x,
    ) by {
        lemma_holds_within(before, g, none, x);
        assert(doc =~= before + g + none);
        lemma_holds_trim_end(doc, x);
    }
}

/// The Markdown form of an export holds its final text, each warning, and each segment
/// with its times and its source, as far as these do not end with white space.
#[verifier::spinoff_prover]
#[verifier::rlimit(40)]
pub proof fn law_meeting_markdown_holds_the_export(e: MeetingExport)
    ensures
        e.final_text matches Some(text) ==> text@.len() > 0 && !is_white(text@.last())
            ==> contains(meeting_markdown(e), "## Final Transcript\n\n"@ + text@),
        forall|k: int|
            0 <= k < e.warnings@.len() && (#[trigger] e.warnings@[k])@.len() > 0 && !is_white(
                e.warnings@[k]@.last(),
            ) ==> contains(meeting_markdown(e), "- "@ + e.warnings@[k]@),
        forall|k: int|
            #![trigger e.segments@[k]]
            0 <= k < e.segments@.len() ==> (e.segments@[k].text matches Some(text) ==> text@.len()
                > 0 && !is_white(text@.last()) ==> contains(
                meeting_markdown(e),
                "- ["@ + offset_text(e.segments@[k].start_ms as nat) + " - "@ + offset_text(
                    e.segments@[k].end_ms as nat,
                ) + "] "@ + e.segments@[k].source_label.name() + ": "@ + text@,
            )),
{
    let w = warnings_section(texts(e.warnings@));
    let g = segments_text(e.segments@);
    lemma_meeting_document(meeting_head(e), or_not_retained(e.final_text), w, g);
    assert forall|k: int|
        0 <= k < e.warnings@.len() && (#[trigger] e.warnings@[k])@.len() > 0 && !is_white(
            e.warnings@[k]@.last(),
        ) implies contains(meeting_markdown(e), "- "@ + e.warnings@[k]@) by {
        lemma_warning_listed(texts(e.warnings@), k);
        assert(("- "@ + e.warnings@[k]@).last() == e.warnings@[k]@.last());
    }
    assert forall|k: int|
        #![trigger e.segments@[k]]
        0 <= k < e.segments@.len() implies (e.segments@[k].text matches Some(text) ==> text@.len()
        > 0 && !is_white(text@.last()) ==> contains(
        meeting_markdown(e),
        "- ["@ + offset_text(e.segments@[k].start_ms as nat) + " - "@ + offset_text(
            e.segments@[k].end_ms as nat,
        ) + "] "@ + e.segments@[k].source_label.name() + ": "@ + text@,
    )) by {
        if let Some(text) = e.segments@[k].text {
            lemma_segment_line(e.segments@, e.segments@.len() as int, k);
            let x = "- ["@ + offset_text(e.segments@[k].start_ms as nat) + " - "@ + offset_text(
                e.segments@[k].end_ms as nat,
            ) + "] "@ + e.segments@[k].source_label.name() + ": "@ + text@;
            if text@.len() > 0 {
                assert(x.last() == text@.last());
            }
        }
    }
}

/// A recogniser counts as having timed speech just where a chunk has several stretches, or
/// one that does not fill it; and how the segments came about says so.
pub proof fn law_timing_is_told(c: Seq<ChunkTranscript>, s: MeetingSegmenting, i: int)
    requires
        is_segmenting(any_timed(c), s),
    ensures
        0 <= i < c.len() && (c[i].transcript.segments@.len() > 1 || c[i].transcript.segments@.len()
            == 1 && c[i].transcript.segments@[0].start_ms > 0) ==> s.vad_available && s.strategy@
            == "asr-segments-offset-by-chunk"@,
        (forall|k: int|
            0 <= k < c.len() ==> (#[trigger] c[k]).transcript.segments@.len() == 0 || (
            c[k].transcript.segments@.len() == 1 && c[k].transcript.segments@[0].start_ms == 0
                && c[k].transcript.segments@[0].end_ms >= c[k].chunk_duration_ms))
            ==> !s.vad_available && s.strategy@ == "chunk-boundaries"@,
{
    if 0 <= i < c.len() && (c[i].transcript.segments@.len() > 1 || c[i].transcript.segments@.len()
        == 1 && c[i].transcript.segments@[0].start_ms > 0) {
        let x = c[i].transcript.segments@[0];
        assert(is_timed(c[i]));
    }
    if forall|k: int|
        0 <= k < c.len() ==> (#[trigger] c[k]).transcript.segments@.len() == 0 || (
        c[k].transcript.segments@.len() == 1 && c[k].transcript.segments@[0].start_ms == 0
            && c[k].transcript.segments@[0].end_ms >= c[k].chunk_duration_ms) {
        assert forall|k: int| 0 <= k < c.len() implies !is_timed(#[trigger] c[k]) by {
            let t = c[k].transcript.segments@;
        }
    }
}

/// A time is shown as hours, minutes below sixty, seconds below sixty and milliseconds, and
/// these make it up.
pub proof fn law_times_are_shown_whole(h: nat, m: nat, s: nat, ms: nat)
    requires
        m < 60,
        s < 60,
        ms < 1000,
    ensures
        offset_text(((h * 60 + m) * 60 + s) * 1000 + ms) == two_digits(h) + ":"@ + two_digits(m)
            + ":"@ + two_digits(s) + "."@ + three_digits(ms),
{
    let t: nat = ((h * 60 + m) * 60 + s) * 1000 + ms;
    assert(t == h * 3_600_000 + m * 60_000 + s * 1_000 + ms);
    let rest: nat = m * 60_000 + s * 1_000 + ms;
    assert(t / 3_600_000 == h && t % 3_600_000 == rest) by (nonlinear_arith)
        requires
            t == h * 3_600_000 + rest,
            rest < 3_600_000,
    ;
    assert(rest / 60_000 == m && rest % 60_000 == s * 1_000 + ms) by (nonlinear_arith)
        requires
            rest == m * 60_000 + (s * 1_000 + ms),
            s * 1_000 + ms < 60_000,
    ;
    assert(t % 60_000 == s * 1_000 + ms) by (nonlinear_arith)
        requires
            t == (h * 60 + m) * 60_000 + (s * 1_000 + ms),
            s * 1_000 + ms < 60_000,
    ;
    assert((s * 1_000 + ms) / 1_000 == s && t % 1_000 == ms) by (nonlinear_arith)
        requires
            t == ((h * 60 + m) * 60 + s) * 1_000 + ms,
            ms < 1_000,
    ;
}

/// The head of the Markdown form tells the session, how it stands and how long it was, and
/// with what it was recognised.
pub proof fn law_meeting_markdown_tells_the_session(e: MeetingExport)
    ensures
        contains(
            meeting_head(e),
            "- **Session:** "@ + e.session.session_id@ + "\n- **Status:** "@ + e.session.status@
                + "\n"@,
        ),
        contains(
            meeting_head(e),
            "- **Duration:** "@ + decimal(e.session.duration_ms as nat) + " ms\n"@,
        ),
        contains(meeting_head(e), "- **Model:** "@ + e.session.model@ + "\n"@),
{
    lemma_session_lines(e);
    lemma_audio_lines(e);
    lemma_head_holds(
        "# Comlink Meeting Transcript\n\n"@ + "## Session Metadata\n\n"@,
        session_lines(e),
        stream_lines(e.source.streams@, e.source.streams@.len() as int),
        audio_lines(e),
        "\n"@,
        "## Retention Policy\n\n"@,
        retention_lines(e),
        "\n"@,
    );
}

/// A head holds what its parts hold.
proof fn lemma_head_holds(
    a: Seq<char>,
    b: Seq<char>,
    c: Seq<char>,
    d: Seq<char>,
    e: Seq<char>,
    f: Seq<char>,
    g: Seq<char>,
    h: Seq<char>,
)
    ensures
        forall|x: Seq<char>| #[trigger]
            contains(b, x) ==> contains(a + b + c + d + e + f + g + h, x),
        forall|x: Seq<char>| #[trigger]
            contains(d, x) ==> contains(a + b + c + d + e + f + g + h, x),
{
    let all = a + b + c + d + e + f + g + h;
    let tail = e + f + g + h;
    assert(all =~= a + b + (c + d + tail));
    assert(all =~= (a + b + c) + d + tail);
    assert forall|x: Seq<char>| #[trigger] contains(b, x) implies contains(all, x) by {
        lemma_holds_within(a, b, c + d + tail, x);
    }
    assert forall|x: Seq<char>| #[trigger] contains(d, x) implies contains(all, x) by {
        lemma_holds_within(a + b + c, d, tail, x);
    }
}

/// The first lines tell the session and how long it was.
proof fn lemma_session_lines(e: MeetingExport)
    ensures
        contains(
            session_lines(e),
            "- **Session:** "@ + e.session.session_id@ + "\n- **Status:** "@ + e.session.status@
                + "\n"@,
        ),
        contains(
            session_lines(e),
            "- **Duration:** "@ + decimal(e.session.duration_ms as nat) + " ms\n"@,
        ),
{
    let s = e.session;
    reveal_strlit("- **");
    reveal_strlit(":** ");
    reveal_strlit("\n");
    reveal_strlit("Session");
    reveal_strlit("Status");
    reveal_strlit("Duration");
    reveal_strlit("- **Session:** ");
    reveal_strlit("\n- **Status:** ");
    reveal_strlit("- **Duration:** ");
    reveal_strlit(" ms");
    reveal_strlit(" ms\n");
    assert("- **Session:** "@ =~= "- **"@ + "Session"@ + ":** "@);
    assert("\n- **Status:** "@ =~= "\n"@ + "- **"@ + "Status"@ + ":** "@);
    assert("- **Duration:** "@ =~= "- **"@ + "Duration"@ + ":** "@);
    assert(" ms\n"@ =~= " ms"@ + "\n"@);
    let x = "- **Session:** "@ + s.session_id@ + "\n- **Status:** "@ + s.status@ + "\n"@;
    let two = field_line("Session"@, s.session_id@) + field_line("Status"@, s.status@);
    assert(x =~= two);
    let l = session_lines(e);
    let a = field_line("Schema"@, e.schema_version@);
    let rest = l.skip((a + two).len() as int);
    assert(l.take((a + two).len() as int) =~= a + two);
    lemma_holds(a, x, rest);
    assert(l =~= a + x + rest);
    let b = a + two + field_line("Started"@, decimal_int(s.started_at_ms as int)) + field_line(
        "Stopped"@,
        match s.stopped_at_ms {
            Some(ms) => decimal_int(ms as int),
            None => "<not stopped>"@,
        },
    );
    let d = field_line("Duration"@, decimal(s.duration_ms as nat) + " ms"@);
    let y = "- **Duration:** "@ + decimal(s.duration_ms as nat) + " ms\n"@;
    assert(d =~= y);
    let after = l.skip((b + d).len() as int);
    assert(l.take((b + d).len() as int) =~= b + d);
    lemma_holds(b, y, after);
    assert(l =~= b + y + after);
}

/// The lines on the audio tell the model.
proof fn lemma_audio_lines(e: MeetingExport)
    ensures
        contains(audio_lines(e), "- **Model:** "@ + e.session.model@ + "\n"@),
{
    let s = e.session;
    reveal_strlit("- **");
    reveal_strlit(":** ");
    reveal_strlit("Model");
    reveal_strlit("- **Model:** ");
    assert("- **Model:** "@ =~= "- **"@ + "Model"@ + ":** "@);
    let l = audio_lines(e);
    let a = field_line("Source audio"@, source_audio_text(s.sample_rate_hz as nat, s.channels as nat))
        + field_line("Chunk duration"@, decimal(s.chunk_duration_ms as nat) + " ms"@) + field_line(
        "Engine"@,
        s.engine@,
    );
    let x = "- **Model:** "@ + s.model@ + "\n"@;
    let f = field_line("Model"@, s.model@);
    assert(f =~= x);
    let rest = l.skip((a + f).len() as int);
    assert(l.take((a + f).len() as int) =~= a + f);
    lemma_holds(a, x, rest);
    assert(l =~= a + x + rest);
}

} // verus!
