//! The layout of the meeting store, and what is read off what lies in it:
//! sessions, chunks of audio and exports.
use vstd::multiset::Multiset;
use vstd::prelude::*;

use crate::config::ConfigPaths;
use crate::error::ComlinkError;
use crate::meet::{
    MeetingSessionState, MeetingSourceLabel, MeetingSourceStream, MeetingStatus,
    MEETING_SCHEMA_VERSION,
};
use crate::meet_export::{
    capped_sum, is_export, MeetingAudioLevel, MeetingExport, MeetingSegment, MeetingSegmenting,
};
use crate::numbers::{decimal, usize_text};
use crate::output::TextProcessingResult;
use crate::ordering::{
    is_ranked, lemma_ranked, lemma_ranked_values, lemma_text_le_reflexive, lemma_text_le_total,
    lemma_text_le_transitive, ranked, sort_ranked, str_le, text_le, Ranked,
};
use crate::paths::{
    is_wav, join_path, joined, lemma_path_order, path_comes_before, path_is_wav, path_le,
};
use crate::strings::{cat3, cat4, cat5, lemma_texts_push, opt_text, str_eq, str_trim, texts, trim};

verus! {

/// The file that names the session being recorded.
pub const ACTIVE_SESSION_FILE: &'static str = "active-session";

/// The file that holds a session.
pub const SESSION_FILE: &'static str = "session.json";

/// The file whose lock guards a session's changes.
pub const LIFECYCLE_LOCK_FILE: &'static str = "lifecycle.lock";

/// A stretch of recorded audio.
#[derive(Debug, Clone)]
pub struct MeetingChunk {
    pub index: usize,
    pub path: String,
    pub source_label: MeetingSourceLabel,
    pub source_device: String,
    pub start_ms: u64,
    pub duration_ms: u64,
}

impl MeetingChunk {
    /// Where the chunk ends in meeting time.
    pub fn end_ms(&self) -> (r: u64)
        ensures
            r == capped_sum(self.start_ms as int, self.duration_ms as int),
    {
        self.start_ms.saturating_add(self.duration_ms)
    }
}

/// What an entry of a directory is.
#[derive(Debug, Clone, Copy, PartialEq, Eq, Structural)]
pub enum EntryKind {
    File,
    Directory,
    Other,
}

/// An entry of a directory, as it was found.
#[derive(Debug)]
pub enum ListedEntry {
    /// The entry could not be read.
    Unreadable(String),
    /// The entry's path, and what it is or why that cannot be told.
    Found(String, Result<EntryKind, String>),
}

/// A directory, as it was found.
#[derive(Debug)]
pub enum Listing {
    /// It does not exist or is no directory.
    Absent,
    /// It may exist but cannot be read.
    Failed(String),
    /// It holds these entries.
    Entries(Vec<ListedEntry>),
}

/// The text of a failure that concerns a path.
pub open spec fn path_failure(path: Seq<char>, error: Seq<char>) -> Seq<char> {
    path + ": "@ + error
}

/// The failure that concerns a path.
pub fn path_io_error(path: &str, error: &str) -> (r: ComlinkError)
    ensures
        r matches ComlinkError::Io(text) && text@ == path_failure(path@, error@),
{
    ComlinkError::Io(cat3(path, ": ", error))
}

/// What is wrong with an entry of `dir`, if anything.
pub open spec fn entry_fault(dir: Seq<char>, e: ListedEntry) -> Option<Seq<char>> {
    match e {
        ListedEntry::Unreadable(error) => Some(path_failure(dir, error@)),
        ListedEntry::Found(path, Err(error)) => Some(path_failure(path@, error@)),
        ListedEntry::Found(_, Ok(_)) => None,
    }
}

/// The paths of the first `n` entries of a kind, or what is wrong with the first
/// entry that something is wrong with.
pub open spec fn paths_of_kind(
    dir: Seq<char>,
    entries: Seq<ListedEntry>,
    kind: EntryKind,
    n: int,
) -> Result<Seq<Seq<char>>, Seq<char>>
    decreases n,
{
    if n <= 0 {
        Ok(Seq::empty())
    } else {
        match paths_of_kind(dir, entries, kind, n - 1) {
            Err(fault) => Err(fault),
            Ok(paths) => match entry_fault(dir, entries[n - 1]) {
                Some(fault) => Err(fault),
                None => Ok(
                    if entries[n - 1]->Found_1 == Ok::<EntryKind, String>(kind) {
                        paths.push(entries[n - 1]->Found_0@)
                    } else {
                        paths
                    },
                ),
            },
        }
    }
}

/// The paths in a directory that are of a kind. A directory that is not there is
/// empty; one that cannot be read is not.
pub open spec fn listed(dir: Seq<char>, listing: Listing, kind: EntryKind) -> Result<
    Seq<Seq<char>>,
    Seq<char>,
> {
    match listing {
        Listing::Absent => Ok(Seq::empty()),
        Listing::Failed(error) => Err(path_failure(dir, error@)),
        Listing::Entries(entries) => paths_of_kind(dir, entries@, kind, entries@.len() as int),
    }
}

/// Once something is wrong it stays wrong.
proof fn lemma_fault_stays(
    dir: Seq<char>,
    entries: Seq<ListedEntry>,
    kind: EntryKind,
    n: int,
    m: int,
)
    requires
        n <= m,
        paths_of_kind(dir, entries, kind, n) is Err,
    ensures
        paths_of_kind(dir, entries, kind, m) == paths_of_kind(dir, entries, kind, n),
    decreases m - n,
{
    if n < m {
        lemma_fault_stays(dir, entries, kind, n, m - 1);
    }
}

/// The paths in a directory that are of a kind.
pub fn list_kind(dir: &str, listing: Listing, kind: EntryKind) -> (r: Result<
    Vec<String>,
    ComlinkError,
>)
    ensures
        match listed(dir@, listing, kind) {
            Ok(paths) => r matches Ok(v) && texts(v@) == paths,
            Err(fault) => r matches Err(ComlinkError::Io(text)) && text@ == fault,
        },
{
    let entries = match listing {
        Listing::Absent => {
            let none: Vec<String> = Vec::new();
            assert(texts(none@) =~= Seq::empty());
            return Ok(none);
        },
        Listing::Failed(error) => return Err(path_io_error(dir, &error)),
        Listing::Entries(entries) => entries,
    };
    let ghost all = entries@;
    let mut r: Vec<String> = Vec::new();
    assert(texts(r@) =~= Seq::empty());
    for e in it: entries
        invariant
            it.seq() == all,
            listed(dir@, listing, kind) == paths_of_kind(dir@, all, kind, all.len() as int),
            paths_of_kind(dir@, all, kind, it.index()) == Ok::<Seq<Seq<char>>, Seq<char>>(
                texts(r@),
            ),
    {
        broadcast use lemma_texts_push;

        let ghost n = it.index() + 1;
        assert(e == all[n - 1]);
        match e {
            ListedEntry::Unreadable(error) => {
                proof {
                    lemma_fault_stays(dir@, all, kind, n, all.len() as int);
                }
                return Err(path_io_error(dir, &error));
            },
            ListedEntry::Found(path, Err(error)) => {
                proof {
                    lemma_fault_stays(dir@, all, kind, n, all.len() as int);
                }
                return Err(path_io_error(&path, &error));
            },
            ListedEntry::Found(path, Ok(found)) => {
                if found == kind {
                    r.push(path);
                }
            },
        }
    }
    Ok(r)
}

/// A path, as paths are sorted.
#[derive(Debug)]
pub struct RankedPath {
    pub path: String,
}

impl Ranked for RankedPath {
    open spec fn precedes(self, other: Self) -> bool {
        path_le(self.path@, other.path@)
    }

    proof fn lemma_order(a: Self, b: Self, c: Self) {
        lemma_path_order(a.path@, b.path@, c.path@);
    }

    fn comes_before(&self, other: &Self) -> bool {
        path_comes_before(&self.path, &other.path)
    }
}

/// The texts of paths.
pub open spec fn path_texts(s: Seq<RankedPath>) -> Seq<Seq<char>> {
    Seq::new(s.len(), |i: int| s[i].path@)
}

/// The WAV files among paths.
pub open spec fn wavs_among(p: Seq<Seq<char>>) -> Seq<Seq<char>>
    decreases p.len(),
{
    if p.len() == 0 {
        p
    } else if is_wav(p.last()) {
        wavs_among(p.drop_last()).push(p.last())
    } else {
        wavs_among(p.drop_last())
    }
}

/// Whether `r` are the WAV files among paths, sorted.
pub open spec fn are_chunk_paths(p: Seq<Seq<char>>, r: Seq<Seq<char>>) -> bool {
    exists|s: Seq<RankedPath>|
        #[trigger] path_texts(s) == wavs_among(p) && r == path_texts(ranked(s))
}

/// The WAV files among paths, sorted.
fn sorted_wavs(paths: Vec<String>) -> (r: Vec<String>)
    ensures
        are_chunk_paths(texts(paths@), texts(r@)),
{
    let ghost all = texts(paths@);
    let ghost given = paths@;
    let mut wavs: Vec<RankedPath> = Vec::new();
    assert(path_texts(wavs@) =~= wavs_among(all.take(0)));
    for path in it: paths
        invariant
            it.seq() == given,
            all == texts(given),
            path_texts(wavs@) == wavs_among(all.take(it.index())),
    {
        let ghost n = it.index() + 1;
        assert(all.take(n).drop_last() =~= all.take(n - 1));
        assert(all.take(n).last() == path@);
        let ghost before = wavs@;
        if path_is_wav(&path) {
            let ghost text = path@;
            wavs.push(RankedPath { path });
            assert(path_texts(wavs@) =~= path_texts(before).push(text));
        }
    }
    assert(all.take(all.len() as int) =~= all);
    let ghost unsorted = wavs@;
    let sorted = sort_ranked(wavs);
    let ghost order = sorted@;
    let mut r: Vec<String> = Vec::new();
    for p in it: sorted
        invariant
            it.seq() == order,
            texts(r@) =~= path_texts(order).take(it.index()),
    {
        broadcast use lemma_texts_push;

        r.push(p.path);
        assert(texts(r@) =~= path_texts(order).take(it.index() + 1));
    }
    assert(texts(r@) =~= path_texts(order));
    assert(path_texts(unsorted) == wavs_among(all));
    r
}

/// Whether `r` are the chunks of audio that lie in a directory.
pub open spec fn is_chunk_list(
    dir: Seq<char>,
    listing: Listing,
    r: Result<Vec<String>, ComlinkError>,
) -> bool {
    match listed(dir, listing, EntryKind::File) {
        Ok(paths) => r matches Ok(v) && are_chunk_paths(paths, texts(v@)),
        Err(fault) => r matches Err(ComlinkError::Io(text)) && text@ == fault,
    }
}

/// The chunks of audio directly in a directory, sorted. Just a directory that does
/// not exist counts as empty; any other failure to read it or one of its entries
/// is an error that names the path, so that a directory that cannot be read is
/// never taken for an empty one.
pub fn chunk_paths_in_dir(dir: &str, listing: Listing) -> (r: Result<Vec<String>, ComlinkError>)
    ensures
        is_chunk_list(dir@, listing, r),
{
    match list_kind(dir, listing, EntryKind::File) {
        Ok(paths) => Ok(sorted_wavs(paths)),
        Err(e) => Err(e),
    }
}

/// A chunk of audio and its probed length.
#[derive(Debug)]
pub struct ProbedChunk {
    pub path: String,
    pub duration_ms: Option<u64>,
}

/// The length of a chunk: the probed one, or the one that the session sets where
/// none could be told.
pub open spec fn chunk_length(p: ProbedChunk, default_ms: u64) -> u64 {
    match p.duration_ms {
        Some(ms) => if ms > 0 {
            ms
        } else {
            default_ms
        },
        None => default_ms,
    }
}

/// Where chunk `n` of a stream starts: where the one before it ends.
pub open spec fn chunk_start(p: Seq<ProbedChunk>, default_ms: u64, n: int) -> int
    decreases n,
{
    if n <= 0 {
        0
    } else {
        capped_sum(chunk_start(p, default_ms, n - 1), chunk_length(p[n - 1], default_ms) as int)
    }
}

/// Whether `c` is chunk `i` of a stream.
pub open spec fn is_chunk(
    p: Seq<ProbedChunk>,
    label: MeetingSourceLabel,
    device: Seq<char>,
    default_ms: u64,
    i: int,
    c: MeetingChunk,
) -> bool {
    &&& c.index == i
    &&& c.path@ == p[i].path@
    &&& c.source_label == label
    &&& c.source_device@ == device
    &&& c.start_ms == chunk_start(p, default_ms, i)
    &&& c.duration_ms == chunk_length(p[i], default_ms)
}

/// Whether `r` are the chunks of a stream, end to end.
pub open spec fn are_chunks(
    p: Seq<ProbedChunk>,
    label: MeetingSourceLabel,
    device: Seq<char>,
    default_ms: u64,
    r: Seq<MeetingChunk>,
) -> bool {
    r.len() == p.len() && forall|i: int|
        0 <= i < p.len() ==> is_chunk(p, label, device, default_ms, i, #[trigger] r[i])
}

/// The chunks of a stream, end to end.
pub fn place_chunks(
    probed: Vec<ProbedChunk>,
    source_label: MeetingSourceLabel,
    source_device: &str,
    chunk_duration_ms: u64,
) -> (r: Vec<MeetingChunk>)
    ensures
        are_chunks(probed@, source_label, source_device@, chunk_duration_ms, r@),
{
    let ghost all = probed@;
    let mut r: Vec<MeetingChunk> = Vec::new();
    let mut start_ms: u64 = 0;
    for p in it: probed
        invariant
            it.seq() == all,
            r@.len() == it.index(),
            start_ms == chunk_start(all, chunk_duration_ms, it.index()),
            forall|i: int|
                0 <= i < it.index() ==> is_chunk(
                    all,
                    source_label,
                    source_device@,
                    chunk_duration_ms,
                    i,
                    #[trigger] r@[i],
                ),
    {
        assert(p == all[it.index()]);
        let duration_ms = match p.duration_ms {
            Some(ms) => if ms > 0 {
                ms
            } else {
                chunk_duration_ms
            },
            None => chunk_duration_ms,
        };
        let index: usize = r.len();
        r.push(
            MeetingChunk {
                index,
                path: p.path,
                source_label,
                source_device: source_device.to_owned(),
                start_ms,
                duration_ms,
            },
        );
        start_ms = start_ms.saturating_add(duration_ms);
    }
    r
}

/// The paths of probed chunks.
pub open spec fn probed_paths(p: Seq<ProbedChunk>) -> Seq<Seq<char>> {
    Seq::new(p.len(), |i: int| p[i].path@)
}

/// Whether `p` are the WAV files among paths, sorted, each with what the probe told of
/// its length.
pub open spec fn are_probed<F: Fn(&String) -> Option<u64>>(
    paths: Seq<Seq<char>>,
    probe: F,
    p: Seq<ProbedChunk>,
) -> bool {
    &&& are_chunk_paths(paths, probed_paths(p))
    &&& forall|i: int|
        0 <= i < p.len() ==> call_ensures(
            probe,
            (&(#[trigger] p[i]).path,),
            p[i].duration_ms,
        )
}

/// The chunks of audio directly in a directory, sorted and probed.
pub fn probe_chunks_in_dir<F: Fn(&String) -> Option<u64>>(
    dir: &str,
    listing: Listing,
    duration_probe: &F,
) -> (r: Result<Vec<ProbedChunk>, ComlinkError>)
    requires
        forall|path: &String| #[trigger] call_requires(*duration_probe, (path,)),
    ensures
        match listed(dir@, listing, EntryKind::File) {
            Ok(paths) => r matches Ok(p) && are_probed(paths, *duration_probe, p@),
            Err(fault) => r matches Err(ComlinkError::Io(text)) && text@ == fault,
        },
{
    let paths = match chunk_paths_in_dir(dir, listing) {
        Ok(paths) => paths,
        Err(e) => return Err(e),
    };
    let ghost all = paths@;
    let mut probed: Vec<ProbedChunk> = Vec::new();
    for path in it: paths
        invariant
            it.seq() == all,
            forall|path: &String| #[trigger] call_requires(*duration_probe, (path,)),
            probed_paths(probed@) =~= texts(all).take(it.index()),
            forall|i: int|
                0 <= i < probed@.len() ==> call_ensures(
                    *duration_probe,
                    (&(#[trigger] probed@[i]).path,),
                    probed@[i].duration_ms,
                ),
    {
        let ghost before = probed_paths(probed@);
        let ghost text = path@;
        assert(path == all[it.index()]);
        let duration_ms = duration_probe(&path);
        probed.push(ProbedChunk { path, duration_ms });
        assert(probed_paths(probed@) =~= before.push(text));
    }
    assert(probed_paths(probed@) =~= texts(all));
    Ok(probed)
}

/// The chunks of a stream that lie in a directory, sorted and end to end. A directory
/// that cannot be read is an error.
pub fn discover_chunks_in_dir<F: Fn(&String) -> Option<u64>>(
    dir: &str,
    listing: Listing,
    source_label: MeetingSourceLabel,
    source_device: &str,
    chunk_duration_ms: u64,
    duration_probe: &F,
) -> (r: Result<Vec<MeetingChunk>, ComlinkError>)
    requires
        forall|path: &String| #[trigger] call_requires(*duration_probe, (path,)),
    ensures
        match listed(dir@, listing, EntryKind::File) {
            Ok(paths) => r matches Ok(chunks) && exists|p: Seq<ProbedChunk>| #[trigger]
                are_probed(paths, *duration_probe, p) && are_chunks(
                    p,
                    source_label,
                    source_device@,
                    chunk_duration_ms,
                    chunks@,
                ),
            Err(fault) => r matches Err(ComlinkError::Io(text)) && text@ == fault,
        },
{
    match probe_chunks_in_dir(dir, listing, duration_probe) {
        Ok(probed) => Ok(place_chunks(probed, source_label, source_device, chunk_duration_ms)),
        Err(e) => Err(e),
    }
}

impl Ranked for MeetingChunk {
    open spec fn precedes(self, other: Self) -> bool {
        if self.start_ms != other.start_ms {
            self.start_ms < other.start_ms
        } else if self.source_label.name() != other.source_label.name() {
            text_le(self.source_label.name(), other.source_label.name())
        } else {
            path_le(self.path@, other.path@)
        }
    }

    proof fn lemma_order(a: Self, b: Self, c: Self) {
        let (x, y, z) = (a.source_label.name(), b.source_label.name(), c.source_label.name());
        lemma_text_le_total(x, y);
        lemma_text_le_total(y, x);
        lemma_text_le_total(y, z);
        lemma_text_le_transitive(x, y, z);
        lemma_path_order(a.path@, b.path@, c.path@);
    }

    fn comes_before(&self, other: &Self) -> bool {
        if self.start_ms != other.start_ms {
            self.start_ms < other.start_ms
        } else if !str_eq(self.source_label.as_str(), other.source_label.as_str()) {
            str_le(self.source_label.as_str(), other.source_label.as_str())
        } else {
            path_comes_before(&self.path, &other.path)
        }
    }
}

/// Whether `s` are the chunks of the first `n` streams, stream after stream.
pub open spec fn are_stream_chunks(
    session: MeetingSessionState,
    probed: Seq<Vec<ProbedChunk>>,
    n: int,
    s: Seq<MeetingChunk>,
) -> bool
    decreases n,
{
    if n <= 0 {
        s.len() == 0
    } else {
        let count = probed[n - 1]@.len();
        let stream = session.source.streams@[n - 1];
        &&& count <= s.len()
        &&& are_stream_chunks(session, probed, n - 1, s.take(s.len() - count))
        &&& are_chunks(
            probed[n - 1]@,
            stream.label,
            stream.device@,
            session.chunk_duration_ms,
            s.skip(s.len() - count),
        )
    }
}

/// The chunks with their numbers.
pub open spec fn numbered_chunks(s: Seq<MeetingChunk>) -> Seq<MeetingChunk> {
    Seq::new(s.len(), |i: int| MeetingChunk { index: i as usize, ..s[i] })
}

/// Whether `r` are the chunks of a session: those of its streams, sorted by start,
/// source and path, and numbered.
pub open spec fn are_session_chunks(
    session: MeetingSessionState,
    probed: Seq<Vec<ProbedChunk>>,
    r: Seq<MeetingChunk>,
) -> bool {
    exists|s: Seq<MeetingChunk>|
        #[trigger] are_stream_chunks(session, probed, probed.len() as int, s) && r
            == numbered_chunks(ranked(s))
}

/// Numbers chunks.
fn number_chunks(chunks: Vec<MeetingChunk>) -> (r: Vec<MeetingChunk>)
    ensures
        r@ == numbered_chunks(chunks@),
{
    let ghost all = chunks@;
    let total: usize = chunks.len();
    let mut r: Vec<MeetingChunk> = Vec::new();
    for c in it: chunks
        invariant
            it.seq() == all,
            total == all.len(),
            r@ =~= numbered_chunks(all).take(it.index()),
    {
        let index: usize = r.len();
        r.push(
            MeetingChunk {
                index,
                path: c.path,
                source_label: c.source_label,
                source_device: c.source_device,
                start_ms: c.start_ms,
                duration_ms: c.duration_ms,
            },
        );
        assert(r@ =~= numbered_chunks(all).take(it.index() + 1));
    }
    assert(numbered_chunks(all).take(all.len() as int) =~= numbered_chunks(all));
    r
}

/// The directory that a stream is recorded to.
pub open spec fn stream_dir(session: MeetingSessionState, stream: MeetingSourceStream) -> Seq<char> {
    match stream.chunks_dir {
        Some(dir) => dir@,
        None => session.chunks_dir@,
    }
}

/// The directory that a stream is recorded to: its own, or the session's.
pub fn stream_chunks_dir(session: &MeetingSessionState, stream: &MeetingSourceStream) -> (r: String)
    ensures
        r@ == stream_dir(*session, *stream),
{
    match &stream.chunks_dir {
        Some(dir) => dir.clone(),
        None => session.chunks_dir.clone(),
    }
}

/// The files in the directory of stream `i`.
pub open spec fn stream_listed(
    session: MeetingSessionState,
    listings: Seq<Listing>,
    i: int,
) -> Result<Seq<Seq<char>>, Seq<char>> {
    listed(stream_dir(session, session.source.streams@[i]), listings[i], EntryKind::File)
}

/// Whether `r` are the chunks of audio of stream `i`.
pub open spec fn is_stream_files(
    session: MeetingSessionState,
    listings: Seq<Listing>,
    i: int,
    r: (MeetingSourceLabel, Vec<String>),
) -> bool {
    &&& r.0 == session.source.streams@[i].label
    &&& stream_listed(session, listings, i) matches Ok(paths) && are_chunk_paths(
        paths,
        texts(r.1@),
    )
}

/// Whether `probed` are the chunks of audio of each stream, sorted and probed.
pub open spec fn are_probed_streams<F: Fn(&String) -> Option<u64>>(
    session: MeetingSessionState,
    listings: Seq<Listing>,
    probe: F,
    probed: Seq<Vec<ProbedChunk>>,
) -> bool {
    &&& probed.len() == listings.len()
    &&& forall|i: int|
        0 <= i < probed.len() ==> stream_listed(session, listings, i) is Ok && are_probed(
            stream_listed(session, listings, i)->Ok_0,
            probe,
            (#[trigger] probed[i])@,
        )
}

/// Whether `r` is what is discovered of a session: its chunks, or the first directory
/// that cannot be read.
pub open spec fn is_discovered<F: Fn(&String) -> Option<u64>>(
    session: MeetingSessionState,
    listings: Seq<Listing>,
    probe: F,
    r: Result<Vec<MeetingChunk>, ComlinkError>,
) -> bool {
    match r {
        Ok(chunks) => exists|probed: Seq<Vec<ProbedChunk>>| #[trigger]
            are_probed_streams(session, listings, probe, probed) && are_session_chunks(
                session,
                probed,
                chunks@,
            ),
        Err(e) => exists|i: int| #[trigger] is_first_fault(session, listings, i, e),
    }
}

/// Whether stream `i` is the first whose directory cannot be read, as `e` says.
pub open spec fn is_first_fault(
    session: MeetingSessionState,
    listings: Seq<Listing>,
    i: int,
    e: ComlinkError,
) -> bool {
    &&& 0 <= i < listings.len()
    &&& stream_listed(session, listings, i) matches Err(fault) && e matches ComlinkError::Io(text)
        && text@ == fault
    &&& forall|j: int| 0 <= j < i ==> stream_listed(session, listings, j) is Ok
}

/// The directories of their own that the first `n` streams have.
pub open spec fn stream_dirs(s: Seq<MeetingSourceStream>, n: int) -> Seq<Seq<char>>
    decreases n,
{
    if n <= 0 {
        Seq::empty()
    } else {
        match s[n - 1].chunks_dir {
            Some(dir) => stream_dirs(s, n - 1).push(dir@),
            None => stream_dirs(s, n - 1),
        }
    }
}

/// The meeting store: a directory that holds one for each session.
#[derive(Debug, Clone)]
pub struct FileMeetingStore {
    pub root: String,
}

/// Where the parts of a new session lie.
#[derive(Debug, Clone)]
pub struct NewMeetingPaths {
    pub session_id: String,
    pub session_dir: String,
    pub chunks_dir: String,
    pub recorder_stderr_path: String,
    pub segments_jsonl_path: String,
    pub json_export_path: String,
    pub markdown_export_path: String,
}

/// A session directory that could not be read, and why.
#[derive(Debug, Clone)]
pub struct SkippedSession {
    pub dir: String,
    pub reason: String,
}

/// The sessions that can be read, and the directories of those that cannot.
pub type SessionScan = (Vec<MeetingSessionState>, Vec<SkippedSession>);

/// How long to wait for a session's lock, in milliseconds.
#[derive(Debug, Clone, Copy, PartialEq, Eq, Structural)]
pub enum LockWait {
    Try,
    For(u64),
}

/// What came of an attempt to lock.
#[derive(Debug)]
pub enum LockAttempt {
    /// The lock is held now.
    Taken,
    /// Another process holds the lock.
    Busy,
    /// There is no lock file.
    Absent,
    /// The attempt failed.
    Failed(String),
}

/// What to do after an attempt to lock.
#[derive(Debug)]
pub enum LockStep {
    /// The lock is held.
    Held,
    /// Try again in a while.
    Sleep,
    /// Give up.
    Fail(ComlinkError),
}

/// The form of an export.
#[derive(Debug, Clone, Copy, PartialEq, Eq, Structural)]
pub enum MeetingExportKind {
    Json,
    Markdown,
}

/// Whether a path exists, as far as can be told.
#[derive(Debug)]
pub enum PathProbe {
    Present,
    Absent,
    Unknown(String),
}

/// Whether a path may exist: all but one known not to.
pub fn path_may_exist(probe: &PathProbe) -> (r: bool)
    ensures
        r == !(probe is Absent),
{
    match probe {
        PathProbe::Absent => false,
        PathProbe::Present => true,
        PathProbe::Unknown(_) => true,
    }
}

/// What to do with audio that is not kept.
#[derive(Debug)]
pub enum DeletePlan {
    /// There is none.
    Nothing,
    /// Delete this directory.
    Remove(String),
    /// It cannot be told whether there is any.
    Fail(ComlinkError),
}

impl Ranked for MeetingSessionState {
    /// Newest first, and the larger id first of those that started together.
    open spec fn precedes(self, other: Self) -> bool {
        if self.started_at_ms != other.started_at_ms {
            self.started_at_ms > other.started_at_ms
        } else {
            text_le(other.session_id@, self.session_id@)
        }
    }

    proof fn lemma_order(a: Self, b: Self, c: Self) {
        lemma_text_le_total(a.session_id@, b.session_id@);
        lemma_text_le_transitive(c.session_id@, b.session_id@, a.session_id@);
    }

    fn comes_before(&self, other: &Self) -> bool {
        if self.started_at_ms != other.started_at_ms {
            self.started_at_ms > other.started_at_ms
        } else {
            str_le(&other.session_id, &self.session_id)
        }
    }
}

impl Ranked for SkippedSession {
    open spec fn precedes(self, other: Self) -> bool {
        path_le(self.dir@, other.dir@) && (path_le(other.dir@, self.dir@) ==> text_le(
            self.reason@,
            other.reason@,
        ))
    }

    proof fn lemma_order(a: Self, b: Self, c: Self) {
        lemma_path_order(a.dir@, b.dir@, c.dir@);
        lemma_path_order(b.dir@, c.dir@, a.dir@);
        lemma_path_order(c.dir@, a.dir@, b.dir@);
        lemma_path_order(b.dir@, a.dir@, c.dir@);
        lemma_text_le_total(a.reason@, b.reason@);
        lemma_text_le_transitive(a.reason@, b.reason@, c.reason@);
    }

    fn comes_before(&self, other: &Self) -> bool {
        path_comes_before(&self.dir, &other.dir) && (!path_comes_before(&other.dir, &self.dir)
            || str_le(&self.reason, &other.reason))
    }
}

/// A directory of the store, and the session that was read from it.
#[derive(Debug)]
pub struct ScannedSession {
    pub path: String,
    pub session: Result<MeetingSessionState, ComlinkError>,
}

/// The sessions that could be read.
pub open spec fn readable(s: Seq<ScannedSession>) -> Seq<MeetingSessionState>
    decreases s.len(),
{
    if s.len() == 0 {
        Seq::empty()
    } else {
        match s.last().session {
            Ok(session) => readable(s.drop_last()).push(session),
            Err(_) => readable(s.drop_last()),
        }
    }
}

/// The directories whose session could not be read, with the reason.
pub open spec fn unreadable(s: Seq<ScannedSession>) -> Seq<(Seq<char>, Seq<char>)>
    decreases s.len(),
{
    if s.len() == 0 {
        Seq::empty()
    } else {
        match s.last().session {
            Ok(_) => unreadable(s.drop_last()),
            Err(e) => unreadable(s.drop_last()).push((s.last().path@, e.text())),
        }
    }
}

/// What directories were skipped and why.
pub open spec fn skipped_texts(s: Seq<SkippedSession>) -> Seq<(Seq<char>, Seq<char>)> {
    Seq::new(s.len(), |i: int| (s[i].dir@, s[i].reason@))
}

/// Whether `r` is what the scan of a store gives: the sessions, newest first, and
/// the directories skipped, sorted.
pub open spec fn is_scan(s: Seq<ScannedSession>, r: SessionScan) -> bool {
    &&& r.0@ == ranked(readable(s))
    &&& exists|t: Seq<SkippedSession>|
        #[trigger] skipped_texts(t) == unreadable(s) && r.1@ == ranked(t)
}

/// The number of the first session in a status.
pub open spec fn first_in_status(s: Seq<MeetingSessionState>, status: MeetingStatus, i: int) -> bool {
    &&& 0 <= i < s.len()
    &&& s[i].status == status
    &&& forall|j: int| 0 <= j < i ==> (#[trigger] s[j]).status != status
}

/// What is wrong with the export of a session, if anything: it has to be one of
/// this layout, of this session, of a stopped meeting, in the session's place, and
/// hold as many segments as it says.
pub open spec fn export_fault(session: MeetingSessionState, e: MeetingExport) -> Option<Seq<char>> {
    if e.schema_version@ != MEETING_SCHEMA_VERSION@ {
        Some("schema_version "@ + e.schema_version@ + " is not "@ + MEETING_SCHEMA_VERSION@)
    } else if e.session.session_id@ != session.session_id@ {
        Some("session_id does not match"@)
    } else if e.session.status@ != "stopped"@ {
        Some("export status is "@ + e.session.status@ + ", not stopped"@)
    } else if e.artifacts.session_dir@ != session.session_dir@ || e.artifacts.segments_jsonl@
        != session.segments_jsonl_path@ || e.artifacts.json_export@ != session.json_export_path@
        || e.artifacts.markdown_export@ != session.markdown_export_path@ {
        Some("artifact paths do not match the session"@)
    } else if e.session.segment_count != e.segments@.len() {
        Some(
            "segment_count "@ + decimal(e.session.segment_count as nat) + " does not match "@
                + decimal(e.segments@.len()) + " segments"@,
        )
    } else {
        None
    }
}

/// The error for an export that cannot be used.
pub open spec fn is_unusable(path: Seq<char>, reason: Seq<char>, e: ComlinkError) -> bool {
    e matches ComlinkError::MeetingExportUnavailable(text) && text@ == path + " ("@ + reason + ")"@
}

/// Whether `r` is what comes of an export that was read for recovery.
pub open spec fn is_validated(
    session: MeetingSessionState,
    read: Result<MeetingExport, String>,
    r: Result<MeetingExport, ComlinkError>,
) -> bool {
    match read {
        Err(error) => r matches Err(e) && is_unusable(session.json_export_path@, error@, e),
        Ok(export) => match export_fault(session, export) {
            Some(reason) => r matches Err(e) && is_unusable(session.json_export_path@, reason, e),
            None => r == Ok::<MeetingExport, ComlinkError>(export),
        },
    }
}

/// The reason why an export cannot be used, if there is one.
fn find_export_fault(session: &MeetingSessionState, export: &MeetingExport) -> (r: Option<String>)
    ensures
        opt_text(r) == export_fault(*session, *export),
{
    if !str_eq(&export.schema_version, MEETING_SCHEMA_VERSION) {
        return Some(
            cat4(
                "schema_version ",
                &export.schema_version,
                " is not ",
                MEETING_SCHEMA_VERSION,
            ),
        );
    }
    if !str_eq(&export.session.session_id, &session.session_id) {
        return Some("session_id does not match".to_owned());
    }
    if !str_eq(&export.session.status, "stopped") {
        return Some(cat3("export status is ", &export.session.status, ", not stopped"));
    }
    let a = &export.artifacts;
    if !str_eq(&a.session_dir, &session.session_dir) || !str_eq(
        &a.segments_jsonl,
        &session.segments_jsonl_path,
    ) || !str_eq(&a.json_export, &session.json_export_path) || !str_eq(
        &a.markdown_export,
        &session.markdown_export_path,
    ) {
        return Some("artifact paths do not match the session".to_owned());
    }
    if export.session.segment_count != export.segments.len() {
        return Some(
            cat5(
                "segment_count ",
                &usize_text(export.session.segment_count),
                " does not match ",
                &usize_text(export.segments.len()),
                " segments",
            ),
        );
    }
    None
}

impl FileMeetingStore {
    /// The store of a configuration.
    pub fn new(paths: &ConfigPaths) -> (r: Self)
        ensures
            r.root@ == joined(paths.data_dir@, "meetings"@),
    {
        FileMeetingStore { root: join_path(&paths.data_dir, "meetings") }
    }

    /// The directory of the store.
    pub fn root(&self) -> (r: &str)
        ensures
            r@ == self.root@,
    {
        &self.root
    }

    /// The directory of a session.
    pub fn session_dir(&self, id: &str) -> (r: String)
        ensures
            r@ == joined(self.root@, id@),
    {
        join_path(&self.root, id)
    }

    /// The file of a session.
    pub fn session_file(&self, id: &str) -> (r: String)
        ensures
            r@ == joined(joined(self.root@, id@), SESSION_FILE@),
    {
        join_path(&join_path(&self.root, id), SESSION_FILE)
    }

    /// The file that names the session being recorded.
    pub fn active_file(&self) -> (r: String)
        ensures
            r@ == joined(self.root@, ACTIVE_SESSION_FILE@),
    {
        join_path(&self.root, ACTIVE_SESSION_FILE)
    }

    /// The lock file of a session.
    pub fn lock_file(&self, id: &str) -> (r: String)
        ensures
            r@ == joined(joined(self.root@, id@), LIFECYCLE_LOCK_FILE@),
    {
        join_path(&join_path(&self.root, id), LIFECYCLE_LOCK_FILE)
    }

    /// Where the parts of a new session lie.
    pub fn paths_for_new_session(&self, session_id: String) -> (r: NewMeetingPaths)
        ensures
            r.session_id == session_id,
            r.session_dir@ == joined(self.root@, session_id@),
            r.chunks_dir@ == joined(r.session_dir@, "chunks"@),
            r.recorder_stderr_path@ == joined(r.session_dir@, "capture.stderr"@),
            r.segments_jsonl_path@ == joined(r.session_dir@, "segments.jsonl"@),
            r.json_export_path@ == joined(r.session_dir@, "transcript.json"@),
            r.markdown_export_path@ == joined(r.session_dir@, "transcript.md"@),
    {
        let session_dir = join_path(&self.root, &session_id);
        NewMeetingPaths {
            session_id,
            chunks_dir: join_path(&session_dir, "chunks"),
            recorder_stderr_path: join_path(&session_dir, "capture.stderr"),
            segments_jsonl_path: join_path(&session_dir, "segments.jsonl"),
            json_export_path: join_path(&session_dir, "transcript.json"),
            markdown_export_path: join_path(&session_dir, "transcript.md"),
            session_dir,
        }
    }

    /// A session, given what its file holds; `None` where there is no such file.
    pub fn read_session(
        &self,
        id: &str,
        stored: Option<Result<MeetingSessionState, ComlinkError>>,
    ) -> (r: Result<MeetingSessionState, ComlinkError>)
        ensures
            match stored {
                Some(read) => r == read,
                None => r matches Err(ComlinkError::MeetingSessionNotFound(name)) && name@ == id@,
            },
    {
        match stored {
            Some(read) => read,
            None => Err(ComlinkError::MeetingSessionNotFound(id.to_owned())),
        }
    }

    /// The session being recorded, given what the file that names it holds; `None`
    /// where there is no such file.
    pub fn active_session_id(&self, content: Option<Result<String, String>>) -> (r: Result<
        Option<String>,
        ComlinkError,
    >)
        ensures
            match content {
                None => r == Ok::<Option<String>, ComlinkError>(None),
                Some(Err(error)) => r == Err::<Option<String>, ComlinkError>(
                    ComlinkError::Io(error),
                ),
                Some(Ok(text)) => r matches Ok(o) && opt_text(o) == if trim(text@).len() == 0 {
                    None
                } else {
                    Some(trim(text@))
                },
            },
    {
        match content {
            None => Ok(None),
            Some(Err(error)) => Err(ComlinkError::Io(error)),
            Some(Ok(text)) => {
                let id = str_trim(&text);
                if id.as_str().is_empty() {
                    Ok(None)
                } else {
                    Ok(Some(id))
                }
            },
        }
    }

    /// Whether the file that names the session being recorded is deleted: just
    /// where it names this one.
    pub fn clear_active_if_matches(&self, active: &Option<String>, id: &str) -> (r: bool)
        ensures
            r == (opt_text(*active) == Some(id@)),
    {
        match active {
            Some(active) => str_eq(active, id),
            None => false,
        }
    }

    /// The sessions of a store, newest first, and the directories whose session
    /// could not be read, which never fail the scan.
    pub fn list_sessions(&self, entries: Vec<ScannedSession>) -> (r: SessionScan)
        ensures
            is_scan(entries@, r),
    {
        let ghost all = entries@;
        let mut sessions: Vec<MeetingSessionState> = Vec::new();
        let mut skipped: Vec<SkippedSession> = Vec::new();
        assert(skipped_texts(skipped@) =~= unreadable(all.take(0)));
        for e in it: entries
            invariant
                it.seq() == all,
                sessions@ == readable(all.take(it.index())),
                skipped_texts(skipped@) == unreadable(all.take(it.index())),
        {
            let ghost n = it.index() + 1;
            assert(all.take(n).drop_last() =~= all.take(n - 1));
            assert(all.take(n).last() == e);
            let ghost before = skipped@;
            match e.session {
                Ok(session) => sessions.push(session),
                Err(error) => {
                    let s = SkippedSession { dir: e.path, reason: error.message() };
                    let ghost text = (s.dir@, s.reason@);
                    skipped.push(s);
                    assert(skipped_texts(skipped@) =~= skipped_texts(before).push(text));
                },
            }
        }
        assert(all.take(all.len() as int) =~= all);
        let ghost unsorted = skipped@;
        let r = (sort_ranked(sessions), sort_ranked(skipped));
        assert(skipped_texts(unsorted) == unreadable(all));
        r
    }

    /// The id of the newest session in a status, of sessions listed newest first.
    pub fn latest_session_with_status(
        &self,
        sessions: &Vec<MeetingSessionState>,
        status: MeetingStatus,
    ) -> (r: Option<String>)
        ensures
            match r {
                Some(id) => exists|i: int|
                    #[trigger] first_in_status(sessions@, status, i) && id@
                        == sessions@[i].session_id@,
                None => forall|i: int|
                    0 <= i < sessions@.len() ==> (#[trigger] sessions@[i]).status != status,
            },
    {
        let mut i: usize = 0;
        while i < sessions.len()
            invariant
                i <= sessions@.len(),
                forall|j: int| 0 <= j < i ==> (#[trigger] sessions@[j]).status != status,
            decreases sessions@.len() - i,
        {
            if sessions[i].status == status {
                assert(first_in_status(sessions@, status, i as int));
                return Some(sessions[i].session_id.clone());
            }
            i += 1;
        }
        None
    }

    /// The id of the newest session that is stopped, of sessions listed newest
    /// first.
    pub fn latest_stopped_session_id(&self, sessions: &Vec<MeetingSessionState>) -> (r: Option<
        String,
    >)
        ensures
            match r {
                Some(id) => exists|i: int|
                    #[trigger] first_in_status(sessions@, MeetingStatus::Stopped, i) && id@
                        == sessions@[i].session_id@,
                None => forall|i: int|
                    0 <= i < sessions@.len() ==> (#[trigger] sessions@[i]).status
                        != MeetingStatus::Stopped,
            },
    {
        self.latest_session_with_status(sessions, MeetingStatus::Stopped)
    }

    /// What to do after an attempt to lock a session, so many milliseconds after
    /// the first: another attempt is made just within the time to wait.
    pub fn lock_session(&self, id: &str, wait: LockWait, attempt: LockAttempt, elapsed_ms: u64) -> (r:
        LockStep)
        ensures
            match attempt {
                LockAttempt::Taken => r == LockStep::Held,
                LockAttempt::Failed(error) => r == LockStep::Fail(ComlinkError::Io(error)),
                LockAttempt::Absent => r matches LockStep::Fail(
                    ComlinkError::MeetingSessionNotFound(name),
                ) && name@ == id@,
                LockAttempt::Busy => if wait matches LockWait::For(ms) && elapsed_ms < ms {
                    r == LockStep::Sleep
                } else {
                    r matches LockStep::Fail(ComlinkError::MeetingLifecycleBusy(name)) && name@
                        == id@
                },
            },
    {
        match attempt {
            LockAttempt::Taken => LockStep::Held,
            LockAttempt::Failed(error) => LockStep::Fail(ComlinkError::Io(error)),
            LockAttempt::Absent => LockStep::Fail(
                ComlinkError::MeetingSessionNotFound(id.to_owned()),
            ),
            LockAttempt::Busy => match wait {
                LockWait::For(ms) if elapsed_ms < ms => LockStep::Sleep,
                _ => LockStep::Fail(ComlinkError::MeetingLifecycleBusy(id.to_owned())),
            },
        }
    }

    /// Whether another process is changing a session, given an attempt to share its
    /// lock.
    pub fn is_session_locked(&self, attempt: LockAttempt) -> (r: Result<bool, ComlinkError>)
        ensures
            match attempt {
                LockAttempt::Taken | LockAttempt::Absent => r == Ok::<bool, ComlinkError>(false),
                LockAttempt::Busy => r == Ok::<bool, ComlinkError>(true),
                LockAttempt::Failed(error) => r == Err::<bool, ComlinkError>(
                    ComlinkError::Io(error),
                ),
            },
    {
        match attempt {
            LockAttempt::Taken | LockAttempt::Absent => Ok(false),
            LockAttempt::Busy => Ok(true),
            LockAttempt::Failed(error) => Err(ComlinkError::Io(error)),
        }
    }

    /// The chunks of audio of each stream of a session, from what its directories
    /// hold; the first directory that cannot be read fails.
    pub fn chunk_files(&self, session: &MeetingSessionState, listings: Vec<Listing>) -> (r: Result<
        Vec<(MeetingSourceLabel, Vec<String>)>,
        ComlinkError,
    >)
        requires
            listings@.len() == session.source.streams@.len(),
        ensures
            match r {
                Ok(v) => v@.len() == listings@.len() && forall|i: int|
                    0 <= i < v@.len() ==> is_stream_files(*session, listings@, i, #[trigger] v@[i]),
                Err(e) => exists|i: int| #[trigger] is_first_fault(*session, listings@, i, e),
            },
    {
        let ghost all = listings@;
        let total: usize = session.source.streams.len();
        let mut r: Vec<(MeetingSourceLabel, Vec<String>)> = Vec::new();
        let mut i: usize = 0;
        for listing in it: listings
            invariant
                it.seq() == all,
                i == it.index(),
                all.len() == total,
                total == session.source.streams@.len(),
                r@.len() == i,
                forall|j: int|
                    0 <= j < i ==> is_stream_files(*session, all, j, #[trigger] r@[j]),
                forall|j: int|
                    0 <= j < i ==> stream_listed(*session, all, j) is Ok,
        {
            assert(listing == all[i as int]);
            let stream = &session.source.streams[i];
            match chunk_paths_in_dir(&stream_chunks_dir(session, stream), listing) {
                Ok(paths) => r.push((stream.label, paths)),
                Err(e) => {
                    assert(is_first_fault(*session, all, i as int, e));
                    return Err(e);
                },
            }
            i += 1;
        }
        Ok(r)
    }

    /// The directories of a new session, in the sequence in which they are made.
    pub fn create_session(&self, session: &MeetingSessionState) -> (r: Vec<String>)
        ensures
            texts(r@) == seq![session.chunks_dir@] + stream_dirs(
                session.source.streams@,
                session.source.streams@.len() as int,
            ) + seq![session.session_dir@],
    {
        broadcast use lemma_texts_push;

        let mut r: Vec<String> = Vec::new();
        r.push(session.chunks_dir.clone());
        assert(texts(r@) =~= seq![session.chunks_dir@] + stream_dirs(session.source.streams@, 0));
        let mut i: usize = 0;
        while i < session.source.streams.len()
            invariant
                i <= session.source.streams@.len(),
                texts(r@) == seq![session.chunks_dir@] + stream_dirs(
                    session.source.streams@,
                    i as int,
                ),
            decreases session.source.streams@.len() - i,
        {
            broadcast use lemma_texts_push;

            if let Some(dir) = &session.source.streams[i].chunks_dir {
                r.push(dir.clone());
            }
            assert(texts(r@) =~= seq![session.chunks_dir@] + stream_dirs(
                session.source.streams@,
                i + 1,
            ));
            i += 1;
        }
        let ghost before = texts(r@);
        r.push(session.session_dir.clone());
        assert(texts(r@) =~= before + seq![session.session_dir@]);
        r
    }

    /// The chunks of a session, given those of each of its streams.
    pub fn session_chunks(
        &self,
        session: &MeetingSessionState,
        probed: Vec<Vec<ProbedChunk>>,
    ) -> (r: Vec<MeetingChunk>)
        requires
            probed@.len() == session.source.streams@.len(),
        ensures
            are_session_chunks(*session, probed@, r@),
    {
        let ghost all = probed@;
        let mut chunks: Vec<MeetingChunk> = Vec::new();
        let total: usize = session.source.streams.len();
        let mut i: usize = 0;
        for p in it: probed
            invariant
                it.seq() == all,
                i == it.index(),
                all.len() == total,
                total == session.source.streams@.len(),
                are_stream_chunks(*session, all, i as int, chunks@),
        {
            let ghost before = chunks@;
            let stream = &session.source.streams[i];
            let mut more = place_chunks(
                p,
                stream.label,
                &stream.device,
                session.chunk_duration_ms,
            );
            let ghost added = more@;
            chunks.append(&mut more);
            assert(chunks@ =~= before + added);
            assert(chunks@.take(chunks@.len() - added.len()) =~= before);
            assert(chunks@.skip(chunks@.len() - added.len()) =~= added);
            i += 1;
        }
        assert(are_stream_chunks(*session, all, all.len() as int, chunks@));
        number_chunks(sort_ranked(chunks))
    }

    /// The chunks of a session: the WAV files in the directories of its streams, each with
    /// the length that the probe tells of it; the first directory that cannot be read
    /// fails.
    pub fn discover_source_chunks<F: Fn(&String) -> Option<u64>>(
        &self,
        session: &MeetingSessionState,
        listings: Vec<Listing>,
        duration_probe: F,
    ) -> (r: Result<Vec<MeetingChunk>, ComlinkError>)
        requires
            listings@.len() == session.source.streams@.len(),
            forall|path: &String| #[trigger] call_requires(duration_probe, (path,)),
        ensures
            is_discovered(*session, listings@, duration_probe, r),
    {
        let ghost all = listings@;
        let total: usize = session.source.streams.len();
        let mut probed: Vec<Vec<ProbedChunk>> = Vec::new();
        let mut i: usize = 0;
        for listing in it: listings
            invariant
                it.seq() == all,
                i == it.index(),
                all.len() == total,
                total == session.source.streams@.len(),
                forall|path: &String| #[trigger] call_requires(duration_probe, (path,)),
                probed@.len() == i,
                forall|j: int|
                    0 <= j < i ==> stream_listed(*session, all, j) is Ok && are_probed(
                        stream_listed(*session, all, j)->Ok_0,
                        duration_probe,
                        (#[trigger] probed@[j])@,
                    ),
                forall|j: int| 0 <= j < i ==> stream_listed(*session, all, j) is Ok,
        {
            assert(listing == all[i as int]);
            let stream = &session.source.streams[i];
            match probe_chunks_in_dir(
                &stream_chunks_dir(session, stream),
                listing,
                &duration_probe,
            ) {
                Ok(chunks) => probed.push(chunks),
                Err(e) => {
                    assert(is_first_fault(*session, all, i as int, e));
                    return Err(e);
                },
            }
            i += 1;
        }
        assert(are_probed_streams(*session, all, duration_probe, probed@));
        Ok(self.session_chunks(session, probed))
    }

    /// The chunks of a session, whatever its sources.
    pub fn discover_chunks<F: Fn(&String) -> Option<u64>>(
        &self,
        session: &MeetingSessionState,
        listings: Vec<Listing>,
        duration_probe: F,
    ) -> (r: Result<Vec<MeetingChunk>, ComlinkError>)
        requires
            listings@.len() == session.source.streams@.len(),
            forall|path: &String| #[trigger] call_requires(duration_probe, (path,)),
        ensures
            is_discovered(*session, listings@, duration_probe, r),
    {
        self.discover_source_chunks(session, listings, duration_probe)
    }

    /// The chunks of one stream of a session.
    pub fn discover_chunks_for_stream<F: Fn(&String) -> Option<u64>>(
        &self,
        session: &MeetingSessionState,
        stream: &MeetingSourceStream,
        listing: Listing,
        duration_probe: F,
    ) -> (r: Result<Vec<MeetingChunk>, ComlinkError>)
        requires
            forall|path: &String| #[trigger] call_requires(duration_probe, (path,)),
        ensures
            match listed(stream_dir(*session, *stream), listing, EntryKind::File) {
                Ok(paths) => r matches Ok(chunks) && exists|p: Seq<ProbedChunk>| #[trigger]
                    are_probed(paths, duration_probe, p) && are_chunks(
                        p,
                        stream.label,
                        stream.device@,
                        session.chunk_duration_ms,
                        chunks@,
                    ),
                Err(fault) => r matches Err(ComlinkError::Io(text)) && text@ == fault,
            },
    {
        discover_chunks_in_dir(
            &stream_chunks_dir(session, stream),
            listing,
            stream.label,
            &stream.device,
            session.chunk_duration_ms,
            &duration_probe,
        )
    }

    /// What to do with a session's audio once it is not kept. Just a directory that
    /// does not exist is nothing to delete: one that cannot be inspected is an
    /// error, never a silent success.
    pub fn delete_unretained_chunks(&self, session: &MeetingSessionState, probe: PathProbe) -> (r:
        DeletePlan)
        ensures
            match probe {
                PathProbe::Present => r matches DeletePlan::Remove(dir) && dir@
                    == session.chunks_dir@,
                PathProbe::Absent => r == DeletePlan::Nothing,
                PathProbe::Unknown(error) => r matches DeletePlan::Fail(ComlinkError::Io(text))
                    && text@ == path_failure(session.chunks_dir@, error@),
            },
    {
        match probe {
            PathProbe::Present => DeletePlan::Remove(session.chunks_dir.clone()),
            PathProbe::Absent => DeletePlan::Nothing,
            PathProbe::Unknown(error) => DeletePlan::Fail(
                path_io_error(&session.chunks_dir, &error),
            ),
        }
    }

    /// How a session's audio is deleted.
    pub fn delete_chunks(&self, session: &MeetingSessionState, probe: PathProbe) -> (r:
        DeletePlan)
        ensures
            match probe {
                PathProbe::Present => r matches DeletePlan::Remove(dir) && dir@
                    == session.chunks_dir@,
                PathProbe::Absent => r == DeletePlan::Nothing,
                PathProbe::Unknown(error) => r matches DeletePlan::Fail(ComlinkError::Io(text))
                    && text@ == path_failure(session.chunks_dir@, error@),
            },
    {
        self.delete_unretained_chunks(session, probe)
    }

    /// The export of a session, given what was read of it, where it is fit to
    /// recover from: a finalize whose transcription had completed then needs no
    /// audio.
    pub fn validate_export_for_recovery(
        &self,
        session: &MeetingSessionState,
        read: Result<MeetingExport, String>,
    ) -> (r: Result<MeetingExport, ComlinkError>)
        ensures
            is_validated(*session, read, r),
    {
        let reason = match &read {
            Ok(export) => match find_export_fault(session, export) {
                Some(reason) => reason,
                None => {
                    return match read {
                        Ok(export) => Ok(export),
                        Err(error) => Err(ComlinkError::MeetingExportUnavailable(error)),
                    };
                },
            },
            Err(error) => error.clone(),
        };
        Err(
            ComlinkError::MeetingExportUnavailable(
                cat4(&session.json_export_path, " (", &reason, ")"),
            ),
        )
    }

    /// The path of a session's export; just a stopped session has one.
    pub fn export_path(
        &self,
        id: &str,
        session: &MeetingSessionState,
        kind: MeetingExportKind,
    ) -> (r: Result<String, ComlinkError>)
        ensures
            if session.status == MeetingStatus::Stopped {
                r matches Ok(path) && path@ == match kind {
                    MeetingExportKind::Json => session.json_export_path@,
                    MeetingExportKind::Markdown => session.markdown_export_path@,
                }
            } else {
                r matches Err(ComlinkError::MeetingNotStopped(name)) && name@ == id@
            },
    {
        if session.status != MeetingStatus::Stopped {
            return Err(ComlinkError::MeetingNotStopped(id.to_owned()));
        }
        match kind {
            MeetingExportKind::Json => Ok(session.json_export_path.clone()),
            MeetingExportKind::Markdown => Ok(session.markdown_export_path.clone()),
        }
    }

    /// An export, given what its file holds; `None` where there is no such file.
    pub fn read_export(&self, path: String, content: Option<Result<String, String>>) -> (r: Result<
        String,
        ComlinkError,
    >)
        ensures
            r == match content {
                None => Err::<String, ComlinkError>(ComlinkError::MeetingExportUnavailable(path)),
                Some(Ok(text)) => Ok(text),
                Some(Err(error)) => Err(ComlinkError::Io(error)),
            },
    {
        match content {
            None => Err(ComlinkError::MeetingExportUnavailable(path)),
            Some(Ok(text)) => Ok(text),
            Some(Err(error)) => Err(ComlinkError::Io(error)),
        }
    }
}

/// Whether session `a` started later than `b`, or together with it under an id that is
/// not the smaller one.
pub open spec fn not_older(a: MeetingSessionState, b: MeetingSessionState) -> bool {
    ||| a.started_at_ms > b.started_at_ms
    ||| a.started_at_ms == b.started_at_ms && text_le(b.session_id@, a.session_id@)
}

/// Every session that can be read is listed once, and no session stands after an
/// older one, nor, of those that started together, after one with a smaller id.
pub proof fn law_sessions_newest_first(s: Seq<ScannedSession>, r: SessionScan)
    requires
        is_scan(s, r),
    ensures
        r.0@.to_multiset() == readable(s).to_multiset(),
        forall|i: int, j: int|
            0 <= i < j < r.0@.len() ==> not_older(#[trigger] r.0@[i], #[trigger] r.0@[j]),
        r.1@.len() == unreadable(s).len(),
        r.0@.len() + r.1@.len() == s.len(),
{
    lemma_ranked(readable(s));
    assert forall|i: int, j: int| 0 <= i < j < r.0@.len() implies not_older(
        #[trigger] r.0@[i],
        #[trigger] r.0@[j],
    ) by {
        assert(r.0@[i].precedes(r.0@[j]));
    }
    let t = choose|t: Seq<SkippedSession>|
        #[trigger] skipped_texts(t) == unreadable(s) && r.1@ == ranked(t);
    lemma_ranked(t);
    assert(skipped_texts(t).len() == t.len());
    lemma_scan_count(s);
}

/// Every directory is listed or skipped.
proof fn lemma_scan_count(s: Seq<ScannedSession>)
    ensures
        readable(s).len() + unreadable(s).len() == s.len(),
    decreases s.len(),
{
    if s.len() > 0 {
        lemma_scan_count(s.drop_last());
    }
}

/// The paths of chunks.
pub open spec fn chunk_texts(s: Seq<MeetingChunk>) -> Seq<Seq<char>> {
    Seq::new(s.len(), |i: int| s[i].path@)
}

/// The WAV files in the directories of the first `n` streams.
pub open spec fn stream_wavs(session: MeetingSessionState, listings: Seq<Listing>, n: int) -> Multiset<
    Seq<char>,
>
    decreases n,
{
    if n <= 0 {
        Multiset::empty()
    } else {
        stream_wavs(session, listings, n - 1).add(
            wavs_among(stream_listed(session, listings, n - 1)->Ok_0).to_multiset(),
        )
    }
}

/// The chunks of the first streams are the WAV files in their directories.
proof fn lemma_stream_chunks<F: Fn(&String) -> Option<u64>>(
    session: MeetingSessionState,
    listings: Seq<Listing>,
    probe: F,
    probed: Seq<Vec<ProbedChunk>>,
    n: int,
    s: Seq<MeetingChunk>,
)
    requires
        n <= probed.len(),
        are_probed_streams(session, listings, probe, probed),
        are_stream_chunks(session, probed, n, s),
    ensures
        chunk_texts(s).to_multiset() == stream_wavs(session, listings, n),
    decreases n,
{
    broadcast use vstd::seq_lib::group_to_multiset_ensures;

    if n <= 0 {
        assert(chunk_texts(s) =~= Seq::empty());
        assert(chunk_texts(s).to_multiset() =~= Multiset::empty());
    } else {
        let p = probed[n - 1]@;
        let (head, tail) = (s.take(s.len() - p.len()), s.skip(s.len() - p.len()));
        lemma_stream_chunks(session, listings, probe, probed, n - 1, head);
        assert(chunk_texts(tail) =~= probed_paths(p));
        assert(chunk_texts(s) =~= chunk_texts(head) + chunk_texts(tail));
        vstd::seq_lib::lemma_multiset_commutative(chunk_texts(head), chunk_texts(tail));
        let wavs = wavs_among(stream_listed(session, listings, n - 1)->Ok_0);
        assert(are_probed(stream_listed(session, listings, n - 1)->Ok_0, probe, p));
        let order = choose|o: Seq<RankedPath>| #[trigger]
            path_texts(o) == wavs && probed_paths(p) == path_texts(ranked(o));
        let text = |x: RankedPath| x.path@;
        lemma_ranked_values(order, text);
        assert(order.map_values(text) =~= path_texts(order));
        assert(ranked(order).map_values(text) =~= path_texts(ranked(order)));
    }
}

/// The chunks discovered of a session are the WAV files in the directories of its
/// streams, no more and no fewer. They stand in the order of their starts, those that
/// start together by their source, and those of one source by their path.
pub proof fn law_discovered_chunks_are_the_wav_files<F: Fn(&String) -> Option<u64>>(
    session: MeetingSessionState,
    listings: Seq<Listing>,
    probe: F,
    chunks: Vec<MeetingChunk>,
)
    requires
        is_discovered(session, listings, probe, Ok(chunks)),
    ensures
        chunk_texts(chunks@).to_multiset() == stream_wavs(session, listings, listings.len() as int),
        is_ranked(chunks@),
        forall|i: int, j: int|
            0 <= i < j < chunks@.len() ==> (#[trigger] chunks@[i]).start_ms <= (
            #[trigger] chunks@[j]).start_ms,
        forall|i: int|
            0 <= i < chunks@.len() ==> (#[trigger] chunks@[i]).index == i as usize,
{
    let probed = choose|p: Seq<Vec<ProbedChunk>>| #[trigger]
        are_probed_streams(session, listings, probe, p) && are_session_chunks(
            session,
            p,
            chunks@,
        );
    let s = choose|s: Seq<MeetingChunk>| #[trigger]
        are_stream_chunks(session, probed, probed.len() as int, s) && chunks@ == numbered_chunks(
            ranked(s),
        );
    lemma_stream_chunks(session, listings, probe, probed, probed.len() as int, s);
    let text = |c: MeetingChunk| c.path@;
    lemma_ranked(s);
    lemma_ranked_values(s, text);
    assert(s.map_values(text) =~= chunk_texts(s));
    assert(ranked(s).map_values(text) =~= chunk_texts(chunks@));
    assert forall|i: int, j: int| 0 <= i < j < chunks@.len() implies (#[trigger] chunks@[i])
        .precedes(#[trigger] chunks@[j]) by {
        assert(ranked(s)[i].precedes(ranked(s)[j]));
    }
}

/// Where a directory of a session's streams cannot be read, nothing is discovered: the
/// first such directory is the error. Where all can be read, the chunks are.
pub proof fn law_unreadable_directory_is_no_empty_one<F: Fn(&String) -> Option<u64>>(
    session: MeetingSessionState,
    listings: Seq<Listing>,
    probe: F,
    r: Result<Vec<MeetingChunk>, ComlinkError>,
)
    requires
        is_discovered(session, listings, probe, r),
    ensures
        r is Ok <==> forall|i: int|
            0 <= i < listings.len() ==> (#[trigger] stream_listed(session, listings, i)) is Ok,
        r matches Err(e) ==> exists|i: int| #[trigger] is_first_fault(session, listings, i, e),
{
    if let Ok(chunks) = r {
        let probed = choose|p: Seq<Vec<ProbedChunk>>| #[trigger]
            are_probed_streams(session, listings, probe, p) && are_session_chunks(
                session,
                p,
                chunks@,
            );
        assert forall|i: int| 0 <= i < listings.len() implies (#[trigger] stream_listed(
            session,
            listings,
            i,
        )) is Ok by {
            let _ = probed[i];
        }
    }
}

/// The session found in a status is the newest in it, and of those that started
/// together one with the largest id.
pub proof fn law_found_session_is_the_newest(
    s: Seq<ScannedSession>,
    r: SessionScan,
    status: MeetingStatus,
    i: int,
    j: int,
)
    requires
        is_scan(s, r),
        first_in_status(r.0@, status, i),
        0 <= j < readable(s).len(),
        readable(s)[j].status == status,
    ensures
        not_older(r.0@[i], readable(s)[j]),
{
    broadcast use vstd::seq_lib::group_to_multiset_ensures;

    law_sessions_newest_first(s, r);
    let x = readable(s)[j];
    assert(readable(s).contains(x));
    assert(r.0@.to_multiset().count(x) > 0);
    assert(r.0@.contains(x));
    let k = choose|k: int| 0 <= k < r.0@.len() && r.0@[k] == x;
    assert(r.0@[k].status == status);
    if k == i {
        lemma_text_le_reflexive(x.session_id@);
    }
}

/// The chunks of a stream follow one another without a gap: each starts where the
/// one before it ends.
pub proof fn law_chunks_stand_end_to_end(
    p: Seq<ProbedChunk>,
    label: MeetingSourceLabel,
    device: Seq<char>,
    default_ms: u64,
    r: Seq<MeetingChunk>,
    i: int,
)
    requires
        are_chunks(p, label, device, default_ms, r),
        0 <= i < r.len() - 1,
    ensures
        r[i + 1].start_ms == capped_sum(r[i].start_ms as int, r[i].duration_ms as int),
        r[0].start_ms == 0,
{
    assert(is_chunk(p, label, device, default_ms, i, r[i]));
    assert(is_chunk(p, label, device, default_ms, i + 1, r[i + 1]));
    assert(is_chunk(p, label, device, default_ms, 0, r[0]));
}

/// What is exported of a stopped meeting is fit to recover from.
pub proof fn law_export_can_be_recovered(
    session: MeetingSessionState,
    s: Seq<MeetingSegment>,
    raw: Seq<char>,
    processed: TextProcessingResult,
    segmenting: MeetingSegmenting,
    level: Option<MeetingAudioLevel>,
    e: MeetingExport,
)
    requires
        session.status == MeetingStatus::Stopped,
        is_export(session, s, raw, processed, segmenting, level, e),
    ensures
        export_fault(session, e) is None,
{
}

/// A scan lists each session that can be read, and tells of each directory whose session
/// cannot, with the reason; it lists and tells of nothing else.
pub proof fn law_scans_leave_nothing_out(s: Seq<ScannedSession>, r: SessionScan, i: int)
    requires
        is_scan(s, r),
        0 <= i < s.len(),
    ensures
        s[i].session matches Ok(x) ==> r.0@.contains(x),
        s[i].session matches Err(e) ==> exists|k: int|
            0 <= k < r.1@.len() && (#[trigger] r.1@[k]).dir@ == s[i].path@ && r.1@[k].reason@
                == e.text(),
        forall|k: int|
            0 <= k < r.0@.len() ==> exists|j: int|
                0 <= j < s.len() && (#[trigger] s[j]).session == Ok::<
                    MeetingSessionState,
                    ComlinkError,
                >(#[trigger] r.0@[k]),
{
    lemma_readable(s);
    let u = readable(s);
    let p = crate::ordering::lemma_ranked_places(u);
    match s[i].session {
        Ok(x) => {
            let j = choose|j: int| 0 <= j < u.len() && u[j] == x;
            assert(p.contains(j));
            let k = choose|k: int| 0 <= k < p.len() && p[k] == j;
            assert(r.0@[k] == u[p[k]]);
        },
        Err(e) => {
            lemma_unreadable(s, i);
            let w = unreadable(s);
            let t = choose|t: Seq<SkippedSession>|
                #[trigger] skipped_texts(t) == w && r.1@ == ranked(t);
            let j = choose|j: int| 0 <= j < w.len() && w[j] == (s[i].path@, e.text());
            let q = crate::ordering::lemma_ranked_places(t);
            assert(skipped_texts(t).len() == t.len());
            assert(q.contains(j));
            let k = choose|k: int| 0 <= k < q.len() && q[k] == j;
            assert(r.1@[k] == t[q[k]]);
            assert(skipped_texts(t)[j] == (t[j].dir@, t[j].reason@));
        },
    }
    assert forall|k: int| 0 <= k < r.0@.len() implies exists|j: int|
        0 <= j < s.len() && (#[trigger] s[j]).session == Ok::<MeetingSessionState, ComlinkError>(
            #[trigger] r.0@[k],
        ) by {
        assert(r.0@[k] == u[p[k]]);
        let j = choose|j: int|
            0 <= j < s.len() && (#[trigger] s[j]).session == Ok::<
                MeetingSessionState,
                ComlinkError,
            >(u[p[k]]);
        assert(s[j].session == Ok::<MeetingSessionState, ComlinkError>(r.0@[k]));
    }
}

/// The sessions that could be read are those that could be read.
proof fn lemma_readable(s: Seq<ScannedSession>)
    ensures
        forall|i: int|
            0 <= i < s.len() ==> ((#[trigger] s[i]).session matches Ok(x) ==> readable(s).contains(
                x,
            )),
        forall|k: int|
            0 <= k < readable(s).len() ==> exists|j: int|
                0 <= j < s.len() && (#[trigger] s[j]).session == Ok::<
                    MeetingSessionState,
                    ComlinkError,
                >(#[trigger] readable(s)[k]),
    decreases s.len(),
{
    if s.len() > 0 {
        let t = s.drop_last();
        lemma_readable(t);
        let (a, b) = (readable(t), readable(s));
        assert forall|i: int|
            0 <= i < s.len() implies ((#[trigger] s[i]).session matches Ok(x) ==> b.contains(
            x,
        )) by {
            if let Ok(x) = s[i].session {
                if i < t.len() {
                    assert(t[i] == s[i]);
                    let k = choose|k: int| 0 <= k < a.len() && a[k] == x;
                    assert(b[k] == x);
                } else {
                    assert(b[b.len() - 1] == x);
                }
            }
        }
        assert forall|k: int| 0 <= k < b.len() implies exists|j: int|
            0 <= j < s.len() && (#[trigger] s[j]).session == Ok::<
                MeetingSessionState,
                ComlinkError,
            >(#[trigger] b[k]) by {
            if k < a.len() {
                assert(b[k] == a[k]);
                let j = choose|j: int|
                    0 <= j < t.len() && (#[trigger] t[j]).session == Ok::<
                        MeetingSessionState,
                        ComlinkError,
                    >(a[k]);
                assert(s[j] == t[j]);
            } else {
                assert(s[s.len() - 1].session == Ok::<MeetingSessionState, ComlinkError>(b[k]));
            }
        }
    }
}

/// A directory whose session could not be read is told of.
proof fn lemma_unreadable(s: Seq<ScannedSession>, i: int)
    requires
        0 <= i < s.len(),
    ensures
        s[i].session matches Err(e) ==> unreadable(s).contains((s[i].path@, e.text())),
    decreases s.len(),
{
    if let Err(e) = s[i].session {
        let t = s.drop_last();
        let b = unreadable(s);
        if i < t.len() {
            lemma_unreadable(t, i);
            let a = unreadable(t);
            assert(t[i] == s[i]);
            let k = choose|k: int| 0 <= k < a.len() && a[k] == (s[i].path@, e.text());
            assert(b[k] == a[k]);
        } else {
            assert(b[b.len() - 1] == (s[i].path@, e.text()));
        }
    }
}

/// The chunks of a stream are its files, in their sequence, each as long as was probed, or
/// as the session sets where nothing was; each starts where the one before it ends.
pub proof fn law_chunks_have_their_files_and_lengths(
    p: Seq<ProbedChunk>,
    label: MeetingSourceLabel,
    device: Seq<char>,
    default_ms: u64,
    r: Seq<MeetingChunk>,
    i: int,
)
    requires
        are_chunks(p, label, device, default_ms, r),
        0 <= i < p.len(),
    ensures
        r.len() == p.len(),
        r[i].path@ == p[i].path@,
        r[i].source_label == label && r[i].source_device@ == device,
        p[i].duration_ms matches Some(ms) ==> (ms > 0 ==> r[i].duration_ms == ms),
        p[i].duration_ms is None || p[i].duration_ms == Some(0u64) ==> r[i].duration_ms == default_ms,
        i == 0 ==> r[i].start_ms == 0,
        i > 0 && r[i - 1].start_ms + r[i - 1].duration_ms <= u64::MAX ==> r[i].start_ms == r[i
            - 1].start_ms + r[i - 1].duration_ms,
{
    assert(is_chunk(p, label, device, default_ms, i, r[i]));
    if i > 0 {
        assert(is_chunk(p, label, device, default_ms, i - 1, r[i - 1]));
    }
}

/// Just the WAV files among paths are chunks.
pub proof fn law_chunks_are_wav_files(p: Seq<Seq<char>>)
    ensures
        wavs_among(p) == p.filter(|x: Seq<char>| is_wav(x)),
    decreases p.len(),
{
    reveal(Seq::filter);
    if p.len() > 0 {
        law_chunks_are_wav_files(p.drop_last());
    }
}

/// An export is fit to recover from just where it has this layout, is that of the session,
/// of a stopped meeting, in the session's places, and has as many segments as it says.
pub proof fn law_what_makes_an_export_fit(session: MeetingSessionState, e: MeetingExport)
    ensures
        export_fault(session, e) is None <==> {
            &&& e.schema_version@ == MEETING_SCHEMA_VERSION@
            &&& e.session.session_id@ == session.session_id@
            &&& e.session.status@ == "stopped"@
            &&& e.artifacts.session_dir@ == session.session_dir@
            &&& e.artifacts.segments_jsonl@ == session.segments_jsonl_path@
            &&& e.artifacts.json_export@ == session.json_export_path@
            &&& e.artifacts.markdown_export@ == session.markdown_export_path@
            &&& e.session.segment_count == e.segments@.len()
        },
{
}

/// A directory that is not there holds nothing, one that cannot be read is an error, and of
/// one that can the paths of a kind are those of its entries of that kind, in their
/// sequence, unless something is wrong with an entry.
pub proof fn law_what_lies_in_a_directory(
    dir: Seq<char>,
    e: Vec<ListedEntry>,
    kind: EntryKind,
    x: Seq<char>,
    error: String,
)
    ensures
        listed(dir, Listing::Absent, kind) == Ok::<Seq<Seq<char>>, Seq<char>>(Seq::empty()),
        listed(dir, Listing::Failed(error), kind) is Err,
        listed(dir, Listing::Entries(e), kind) is Ok <==> forall|i: int|
            0 <= i < e@.len() ==> (#[trigger] e@[i] matches ListedEntry::Found(_, Ok(_))),
        listed(dir, Listing::Entries(e), kind) matches Ok(p) ==> (p.contains(x) <==> exists|i: int|
            0 <= i < e@.len() && (#[trigger] e@[i] matches ListedEntry::Found(path, Ok(k)) && k
                == kind && path@ == x)),
{
    lemma_paths_of_kind(dir, e@, kind, e@.len() as int, x);
}

/// The paths of a kind are those of the entries of that kind.
proof fn lemma_paths_of_kind(
    dir: Seq<char>,
    e: Seq<ListedEntry>,
    kind: EntryKind,
    n: int,
    x: Seq<char>,
)
    requires
        0 <= n <= e.len(),
    ensures
        paths_of_kind(dir, e, kind, n) is Ok <==> forall|i: int|
            0 <= i < n ==> (#[trigger] e[i] matches ListedEntry::Found(_, Ok(_))),
        paths_of_kind(dir, e, kind, n) matches Ok(p) ==> (p.contains(x) <==> exists|i: int|
            0 <= i < n && (#[trigger] e[i] matches ListedEntry::Found(path, Ok(k)) && k == kind
                && path@ == x)),
    decreases n,
{
    if n > 0 {
        lemma_paths_of_kind(dir, e, kind, n - 1, x);
        if paths_of_kind(dir, e, kind, n) is Ok {
            let a = paths_of_kind(dir, e, kind, n - 1)->Ok_0;
            let b = paths_of_kind(dir, e, kind, n)->Ok_0;
            if a.contains(x) {
                let k = choose|k: int| 0 <= k < a.len() && a[k] == x;
                assert(b[k] == x);
            }
            if b.contains(x) && !a.contains(x) {
                let k = choose|k: int| 0 <= k < b.len() && b[k] == x;
                if k < a.len() {
                    assert(a[k] == x);
                }
            }
            if let ListedEntry::Found(path, Ok(k)) = e[n - 1] {
                if k == kind {
                    assert(b[b.len() - 1] == path@);
                }
            }
        }
    }
}

/// A stream is recorded to its own directory, or else to the session's.
pub proof fn law_streams_have_their_directory(session: MeetingSessionState, s: MeetingSourceStream)
    ensures
        s.chunks_dir matches Some(dir) ==> stream_dir(session, s) == dir@,
        s.chunks_dir is None ==> stream_dir(session, s) == session.chunks_dir@,
{
}

} // verus!
