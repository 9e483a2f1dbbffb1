//! The search for audio of meetings that nobody asked to keep.
use vstd::prelude::*;

use crate::error::ComlinkError;
use crate::meet::{MeetingSessionState, MeetingStatus};
use crate::meet_service::{invalid_export_error, invalid_reason};
use crate::meet_store::{path_failure, path_texts, EntryKind, ListedEntry, Listing, RankedPath};
use crate::numbers::{decimal, usize_text};
use crate::ordering::{ranked, sort_ranked};
use crate::paths::{
    file_name, is_wav, join_path, joined, path_comes_before, path_file_name, path_is_wav, path_le,
};
use crate::strings::{cat2, cat3, cat4, cat5, cat6, lemma_texts_push, opt_text, starts_with, texts};

verus! {

/// A session that may still hold audio that is not to be kept.
#[derive(Debug, Clone)]
pub struct UnretainedMeetingAudio {
    /// The session's id, or the name of its directory where it cannot be read.
    pub session_id: String,
    /// The session's status, or `unknown` where it cannot be read.
    pub status: &'static str,
    /// How many chunks were found; none where they could not be listed.
    pub chunk_files: usize,
    pub chunks_dir: String,
    pub session_dir: String,
    pub reason: String,
    pub remedy: String,
}

/// A part of the store that could not be searched.
#[derive(Debug, Clone)]
pub struct MeetingAudioScanError {
    pub path: String,
    pub reason: String,
}

/// What the search found.
#[derive(Debug, Clone)]
pub struct MeetingAudioAudit {
    pub clean: bool,
    pub unretained_leftovers: Vec<UnretainedMeetingAudio>,
    pub scan_errors: Vec<MeetingAudioScanError>,
}

/// An entry of a directory, with what a directory holds.
#[derive(Debug)]
pub enum TreeEntry {
    /// The entry could not be read.
    Unreadable(String),
    /// It cannot be told what is at this path.
    Unknown(String, String),
    File(String),
    Directory(String, DirTree),
    Other(String),
}

/// A directory with all below it.
#[derive(Debug)]
pub enum DirTree {
    Absent,
    Failed(String),
    Entries(Vec<TreeEntry>),
}

/// The WAV files among the first `n` entries of a directory and below, down to a
/// depth, or what is wrong with the first entry that something is wrong with.
pub open spec fn entry_wavs(dir: Seq<char>, entries: Seq<TreeEntry>, n: int, depth: nat) -> Result<
    Seq<Seq<char>>,
    Seq<char>,
>
    decreases depth, n,
{
    if n <= 0 {
        Ok(Seq::empty())
    } else {
        match entry_wavs(dir, entries, n - 1, depth) {
            Err(fault) => Err(fault),
            Ok(paths) => match entries[n - 1] {
                TreeEntry::Unreadable(error) => Err(path_failure(dir, error@)),
                TreeEntry::Unknown(path, error) => Err(path_failure(path@, error@)),
                TreeEntry::File(path) => Ok(
                    if is_wav(path@) {
                        paths.push(path@)
                    } else {
                        paths
                    },
                ),
                TreeEntry::Directory(path, tree) => if depth == 0 {
                    Ok(paths)
                } else {
                    match tree {
                        DirTree::Absent => Ok(paths),
                        DirTree::Failed(error) => Err(path_failure(path@, error@)),
                        DirTree::Entries(below) => match entry_wavs(
                            path@,
                            below@,
                            below@.len() as int,
                            (depth - 1) as nat,
                        ) {
                            Ok(more) => Ok(paths + more),
                            Err(fault) => Err(fault),
                        },
                    }
                },
                TreeEntry::Other(_) => Ok(paths),
            },
        }
    }
}

/// The WAV files in a directory and below, down to a depth.
pub open spec fn tree_wavs(dir: Seq<char>, tree: DirTree, depth: nat) -> Result<
    Seq<Seq<char>>,
    Seq<char>,
> {
    match tree {
        DirTree::Absent => Ok(Seq::empty()),
        DirTree::Failed(error) => Err(path_failure(dir, error@)),
        DirTree::Entries(entries) => entry_wavs(dir, entries@, entries@.len() as int, depth),
    }
}

/// Once something is wrong it stays wrong.
proof fn lemma_fault_stays(dir: Seq<char>, entries: Seq<TreeEntry>, n: int, m: int, depth: nat)
    requires
        n <= m,
        entry_wavs(dir, entries, n, depth) is Err,
    ensures
        entry_wavs(dir, entries, m, depth) == entry_wavs(dir, entries, n, depth),
    decreases m - n,
{
    if n < m {
        lemma_fault_stays(dir, entries, n, m - 1, depth);
    }
}

/// What is wrong with a path.
fn failure_text(path: &str, error: &str) -> (r: String)
    ensures
        r@ == path_failure(path@, error@),
{
    cat3(path, ": ", error)
}

/// The WAV files in a directory and below, down to a depth. Just a directory that
/// is not there counts as empty; any other failure names the path it concerns.
pub fn wav_paths(dir: &str, tree: DirTree, depth: usize) -> (r: Result<Vec<String>, String>)
    ensures
        match tree_wavs(dir@, tree, depth as nat) {
            Ok(paths) => r matches Ok(v) && texts(v@) == paths,
            Err(fault) => r matches Err(m) && m@ == fault,
        },
    decreases depth,
{
    let entries = match tree {
        DirTree::Absent => {
            let none: Vec<String> = Vec::new();
            assert(texts(none@) =~= Seq::empty());
            return Ok(none);
        },
        DirTree::Failed(error) => return Err(failure_text(dir, &error)),
        DirTree::Entries(entries) => entries,
    };
    let ghost all = entries@;
    let mut r: Vec<String> = Vec::new();
    assert(texts(r@) =~= Seq::empty());
    for entry in it: entries
        invariant
            it.seq() == all,
            tree_wavs(dir@, tree, depth as nat) == entry_wavs(
                dir@,
                all,
                all.len() as int,
                depth as nat,
            ),
            entry_wavs(dir@, all, it.index(), depth as nat) == Ok::<Seq<Seq<char>>, Seq<char>>(
                texts(r@),
            ),
    {
        broadcast use {lemma_texts_push, crate::strings::lemma_texts_add};

        let ghost n = it.index() + 1;
        assert(entry == all[n - 1]);
        proof {
            if entry_wavs(dir@, all, n, depth as nat) is Err {
                lemma_fault_stays(dir@, all, n, all.len() as int, depth as nat);
            }
        }
        match entry {
            TreeEntry::Unreadable(error) => return Err(failure_text(dir, &error)),
            TreeEntry::Unknown(path, error) => return Err(failure_text(&path, &error)),
            TreeEntry::File(path) => {
                if path_is_wav(&path) {
                    r.push(path);
                }
            },
            TreeEntry::Directory(path, below) => {
                if depth > 0 {
                    let ghost before = texts(r@);
                    match wav_paths(&path, below, depth - 1) {
                        Ok(mut more) => {
                            r.append(&mut more);
                            assert(texts(r@) =~= before + tree_wavs(
                                path@,
                                below,
                                (depth - 1) as nat,
                            )->Ok_0);
                        },
                        Err(m) => return Err(m),
                    }
                }
            },
            TreeEntry::Other(_) => {},
        }
    }
    Ok(r)
}

/// What is wrong with an entry of the store: the path that it is told of, and why.
pub open spec fn scan_fault(root: Seq<char>, e: ListedEntry) -> Option<(Seq<char>, Seq<char>)> {
    match e {
        ListedEntry::Unreadable(error) => Some(
            (root, "could not read a meeting session entry: "@ + error@),
        ),
        ListedEntry::Found(path, Err(error)) => Some(
            (path@, "could not read the type of a meeting session entry: "@ + error@),
        ),
        ListedEntry::Found(_, Ok(_)) => None,
    }
}

/// What is wrong with the first `n` entries of the store.
pub open spec fn scan_faults(root: Seq<char>, e: Seq<ListedEntry>, n: int) -> Seq<
    (Seq<char>, Seq<char>),
>
    decreases n,
{
    if n <= 0 {
        Seq::empty()
    } else {
        match scan_fault(root, e[n - 1]) {
            Some(fault) => scan_faults(root, e, n - 1).push(fault),
            None => scan_faults(root, e, n - 1),
        }
    }
}

/// The directories among the first `n` entries of the store.
pub open spec fn dirs_among(e: Seq<ListedEntry>, n: int) -> Seq<Seq<char>>
    decreases n,
{
    if n <= 0 {
        Seq::empty()
    } else {
        match e[n - 1] {
            ListedEntry::Found(path, Ok(EntryKind::Directory)) => dirs_among(e, n - 1).push(path@),
            _ => dirs_among(e, n - 1),
        }
    }
}

/// What errors of the search say.
pub open spec fn error_texts(e: Seq<MeetingAudioScanError>) -> Seq<(Seq<char>, Seq<char>)> {
    Seq::new(e.len(), |i: int| (e[i].path@, e[i].reason@))
}

/// The session directories among the entries of the store. An entry that cannot be
/// read at all is told of the store, as it has no path yet; one whose type cannot be
/// read is told of its own path.
pub fn collect_session_dirs(
    root: &str,
    entries: Vec<ListedEntry>,
    scan_errors: &mut Vec<MeetingAudioScanError>,
) -> (r: Vec<String>)
    ensures
        texts(r@) == dirs_among(entries@, entries@.len() as int),
        error_texts(final(scan_errors)@) == error_texts(old(scan_errors)@) + scan_faults(
            root@,
            entries@,
            entries@.len() as int,
        ),
{
    let ghost all = entries@;
    let ghost first = error_texts(scan_errors@);
    let mut r: Vec<String> = Vec::new();
    assert(texts(r@) =~= dirs_among(all, 0));
    assert(first + scan_faults(root@, all, 0) =~= first);
    for e in it: entries
        invariant
            it.seq() == all,
            texts(r@) == dirs_among(all, it.index()),
            error_texts(scan_errors@) == first + scan_faults(root@, all, it.index()),
    {
        broadcast use lemma_texts_push;

        let ghost n = it.index() + 1;
        assert(e == all[n - 1]);
        let ghost before = scan_errors@;
        match e {
            ListedEntry::Unreadable(error) => {
                scan_errors.push(
                    MeetingAudioScanError {
                        path: root.to_owned(),
                        reason: cat2("could not read a meeting session entry: ", &error),
                    },
                );
                assert(error_texts(scan_errors@) =~= error_texts(before).push(
                    scan_fault(root@, all[n - 1])->Some_0,
                ));
                assert(error_texts(scan_errors@) =~= first + scan_faults(root@, all, n));
            },
            ListedEntry::Found(path, Err(error)) => {
                scan_errors.push(
                    MeetingAudioScanError {
                        path,
                        reason: cat2(
                            "could not read the type of a meeting session entry: ",
                            &error,
                        ),
                    },
                );
                assert(error_texts(scan_errors@) =~= error_texts(before).push(
                    scan_fault(root@, all[n - 1])->Some_0,
                ));
                assert(error_texts(scan_errors@) =~= first + scan_faults(root@, all, n));
            },
            ListedEntry::Found(path, Ok(kind)) => {
                if kind == EntryKind::Directory {
                    r.push(path);
                }
            },
        }
    }
    r
}

/// What the listing of the store gives: the session directories, sorted, and what
/// could not be searched.
#[derive(Debug)]
pub struct StoreListing {
    pub dirs: Vec<String>,
    pub scan_errors: Vec<MeetingAudioScanError>,
}

/// Whether `r` are the paths `p`, sorted.
pub open spec fn are_sorted_paths(p: Seq<Seq<char>>, r: Seq<Seq<char>>) -> bool {
    exists|s: Seq<RankedPath>| #[trigger] path_texts(s) == p && r == path_texts(ranked(s))
}

/// Paths, sorted.
fn sort_paths(paths: Vec<String>) -> (r: Vec<String>)
    ensures
        are_sorted_paths(texts(paths@), texts(r@)),
{
    let ghost given = paths@;
    let mut v: Vec<RankedPath> = Vec::new();
    for path in it: paths
        invariant
            it.seq() == given,
            path_texts(v@) =~= texts(given).take(it.index()),
    {
        let ghost before = v@;
        let ghost text = path@;
        assert(texts(given)[it.index()] == text);
        v.push(RankedPath { path });
        assert(path_texts(v@) =~= path_texts(before).push(text));
        assert(path_texts(v@) =~= texts(given).take(it.index() + 1));
    }
    let ghost unsorted = v@;
    assert(path_texts(unsorted) =~= texts(given));
    let sorted = sort_ranked(v);
    let ghost order = sorted@;
    let mut r: Vec<String> = Vec::new();
    for p in it: sorted
        invariant
            it.seq() == order,
            texts(r@) =~= path_texts(order).take(it.index()),
    {
        broadcast use lemma_texts_push;

        r.push(p.path);
        assert(texts(r@) =~= path_texts(order).take(it.index() + 1));
    }
    assert(texts(r@) =~= path_texts(order));
    assert(path_texts(unsorted) == texts(given));
    r
}

/// The session directories of a store, and what could not be searched. A store that
/// is not there holds none.
pub fn list_store(root: &str, listing: Listing) -> (r: StoreListing)
    ensures
        match listing {
            Listing::Absent => r.dirs@.len() == 0 && r.scan_errors@.len() == 0,
            Listing::Failed(error) => r.dirs@.len() == 0 && error_texts(r.scan_errors@) == seq![
                (root@, "could not list meeting sessions: "@ + error@),
            ],
            Listing::Entries(entries) => are_sorted_paths(
                dirs_among(entries@, entries@.len() as int),
                texts(r.dirs@),
            ) && error_texts(r.scan_errors@) == scan_faults(
                root@,
                entries@,
                entries@.len() as int,
            ),
        },
{
    let mut scan_errors: Vec<MeetingAudioScanError> = Vec::new();
    match listing {
        Listing::Absent => StoreListing { dirs: Vec::new(), scan_errors },
        Listing::Failed(error) => {
            scan_errors.push(
                MeetingAudioScanError {
                    path: root.to_owned(),
                    reason: cat2("could not list meeting sessions: ", &error),
                },
            );
            assert(error_texts(scan_errors@) =~= seq![
                (root@, "could not list meeting sessions: "@ + error@),
            ]);
            StoreListing { dirs: Vec::new(), scan_errors }
        },
        Listing::Entries(entries) => {
            let ghost all = entries@;
            let dirs = collect_session_dirs(root, entries, &mut scan_errors);
            assert(error_texts(scan_errors@) =~= scan_faults(root@, all, all.len() as int));
            StoreListing { dirs: sort_paths(dirs), scan_errors }
        },
    }
}

/// Whether two paths are one, component by component.
pub open spec fn is_same_path(a: Seq<char>, b: Seq<char>) -> bool {
    path_le(a, b) && path_le(b, a)
}

/// Whether a path is one of the first `n`.
pub open spec fn is_among(p: Seq<char>, paths: Seq<Seq<char>>, n: int) -> bool {
    exists|i: int| 0 <= i < n && is_same_path(p, #[trigger] paths[i])
}

/// How many different paths the first `n` are.
pub open spec fn distinct(paths: Seq<Seq<char>>, n: int) -> nat
    decreases n,
{
    if n <= 0 {
        0
    } else if is_among(paths[n - 1], paths, n - 1) {
        distinct(paths, n - 1)
    } else {
        distinct(paths, n - 1) + 1
    }
}

/// How many of the first `n` paths are not among others.
pub open spec fn outside(paths: Seq<Seq<char>>, n: int, others: Seq<Seq<char>>) -> nat
    decreases n,
{
    if n <= 0 {
        0
    } else if is_among(paths[n - 1], others, others.len() as int) {
        outside(paths, n - 1, others)
    } else {
        outside(paths, n - 1, others) + 1
    }
}

/// Whether a path is one of the first `n`.
fn path_is_among(p: &str, paths: &Vec<String>, n: usize) -> (r: bool)
    requires
        n <= paths@.len(),
    ensures
        r == is_among(p@, texts(paths@), n as int),
{
    let mut i: usize = 0;
    while i < n
        invariant
            i <= n <= paths@.len(),
            forall|j: int| 0 <= j < i ==> !is_same_path(p@, #[trigger] texts(paths@)[j]),
        decreases n - i,
    {
        assert(texts(paths@)[i as int] == paths@[i as int]@);
        if path_comes_before(p, &paths[i]) && path_comes_before(&paths[i], p) {
            return true;
        }
        i += 1;
    }
    false
}

/// How many different paths there are.
fn count_distinct(paths: &Vec<String>) -> (r: usize)
    ensures
        r == distinct(texts(paths@), paths@.len() as int),
        r <= paths@.len(),
{
    let mut r: usize = 0;
    let mut i: usize = 0;
    while i < paths.len()
        invariant
            i <= paths@.len(),
            r <= i,
            r == distinct(texts(paths@), i as int),
        decreases paths@.len() - i,
    {
        assert(texts(paths@)[i as int] == paths@[i as int]@);
        if !path_is_among(&paths[i], paths, i) {
            r += 1;
        }
        i += 1;
    }
    r
}

/// How many paths are not among others.
fn count_outside(paths: &Vec<String>, others: &Vec<String>) -> (r: usize)
    ensures
        r == outside(texts(paths@), paths@.len() as int, texts(others@)),
        r <= paths@.len(),
{
    let mut r: usize = 0;
    let mut i: usize = 0;
    assert(texts(others@).len() == others@.len());
    while i < paths.len()
        invariant
            i <= paths@.len(),
            r <= i,
            texts(others@).len() == others@.len(),
            r == outside(texts(paths@), i as int, texts(others@)),
        decreases paths@.len() - i,
    {
        assert(texts(paths@)[i as int] == paths@[i as int]@);
        if !path_is_among(&paths[i], others, others.len()) {
            r += 1;
        }
        i += 1;
    }
    r
}

/// What is found out about a session directory.
#[derive(Debug)]
pub struct SessionDirFacts {
    pub dir: String,
    /// The session that was read from it.
    pub session: Result<MeetingSessionState, ComlinkError>,
    /// Whether a recorder of the session is certain to run.
    pub verified_running: bool,
    /// The chunks that lie where the session says.
    pub recorded: Result<Vec<String>, ComlinkError>,
    /// The chunks that lie in the directory itself.
    pub found: Result<Vec<String>, String>,
    /// What is wrong with the session's export, if anything.
    pub export_error: Option<ComlinkError>,
    /// Whether the session has an export, or may have one.
    pub export_may_exist: bool,
}

/// The sum, or the largest number there is.
pub open spec fn counted(n: nat) -> int {
    if n > usize::MAX {
        usize::MAX as int
    } else {
        n as int
    }
}

/// How many chunks are left of a session, why that is told, and whether some lie
/// where the session does not say; `None` where none is left. Chunks that cannot be
/// listed are told of too.
pub open spec fn leftover_of(
    s: MeetingSessionState,
    dir: Seq<char>,
    recorded: Result<Vec<String>, ComlinkError>,
    found: Result<Vec<String>, String>,
) -> Option<(int, Seq<char>, bool)> {
    match (recorded, found) {
        (Err(e), _) => Some(
            (0, "unreadable chunks dir under "@ + s.chunks_dir@ + ": "@ + e.text(), false),
        ),
        (Ok(_), Err(m)) => Some((0, "unreadable chunks dir: "@ + m@, false)),
        (Ok(r), Ok(f)) => {
            let extra = outside(texts(f@), f@.len() as int, texts(r@));
            let count = distinct(texts(r@), r@.len() as int) + extra;
            if count == 0 {
                None
            } else if extra > 0 {
                Some(
                    (
                        counted(count),
                        "retention.audio=false and "@ + decimal(extra) + " chunk WAV(s) under "@
                            + joined(dir, "chunks"@)
                            + " are outside the chunks dir recorded in session.json ("@
                            + s.chunks_dir@ + "); was the data dir moved or restored? (status "@
                            + s.status.name() + ")"@,
                        true,
                    ),
                )
            } else if s.status == MeetingStatus::Recording {
                Some(
                    (
                        counted(count),
                        "stale recording: retention.audio=false, chunk WAVs remain and the recorder is not verified running"@,
                        false,
                    ),
                )
            } else {
                Some(
                    (
                        counted(count),
                        "retention.audio=false but chunk WAVs remain (status "@ + s.status.name()
                            + ")"@,
                        false,
                    ),
                )
            }
        },
    }
}

/// Why audio is told of and what to do about it: chunks elsewhere are looked at by
/// hand; a recording is stopped; otherwise the session is finalized, once an export
/// that is not valid is out of the way.
pub open spec fn advice(
    s: MeetingSessionState,
    dir: Seq<char>,
    reason: Seq<char>,
    unrecorded: bool,
    invalid: Option<Seq<char>>,
) -> (Seq<char>, Seq<char>) {
    if unrecorded {
        (
            reason,
            "inspect "@ + joined(dir, "chunks"@)
                + "; `comlink meet finalize` deletes only the recorded chunks dir "@
                + s.chunks_dir@ + ", so remove WAVs outside it by hand"@,
        )
    } else if s.status == MeetingStatus::Recording {
        (reason, "comlink meet stop "@ + s.session_id@)
    } else {
        match invalid {
            Some(fault) => (
                reason + "; the JSON export at "@ + s.json_export_path@ + " is invalid ("@ + fault
                    + "), and `comlink meet finalize` never overwrites an existing export"@,
                "fix or remove the invalid export at "@ + s.json_export_path@
                    + ", then run `comlink meet finalize "@ + s.session_id@ + "`"@,
            ),
            None => (reason, "comlink meet finalize "@ + s.session_id@),
        }
    }
}

/// What is wrong with an export that stands in the way of a finalize.
pub open spec fn blocking_fault(s: MeetingSessionState, error: Option<ComlinkError>, may_exist: bool) -> Option<
    Seq<char>,
> {
    match error {
        Some(e) => if may_exist {
            Some(invalid_reason(s.json_export_path@, e))
        } else {
            None
        },
        None => None,
    }
}

/// Whether the audio of a session is no leftover: it is kept, or it is being
/// recorded.
pub open spec fn is_exempt(s: MeetingSessionState, verified_running: bool) -> bool {
    s.retention.audio || s.status == MeetingStatus::Recording && verified_running
}

/// Whether `r` is what is told of a session that can be read.
pub open spec fn is_readable_leftover(
    s: MeetingSessionState,
    dir: Seq<char>,
    verified_running: bool,
    recorded: Result<Vec<String>, ComlinkError>,
    found: Result<Vec<String>, String>,
    export_error: Option<ComlinkError>,
    export_may_exist: bool,
    r: Option<UnretainedMeetingAudio>,
) -> bool {
    if is_exempt(s, verified_running) {
        r is None
    } else {
        match leftover_of(s, dir, recorded, found) {
            None => r is None,
            Some((count, reason, unrecorded)) => {
                let text = advice(
                    s,
                    dir,
                    reason,
                    unrecorded,
                    blocking_fault(s, export_error, export_may_exist),
                );
                &&& r matches Some(a)
                &&& a.session_id == s.session_id
                &&& a.status@ == s.status.name()
                &&& a.chunk_files == count
                &&& a.chunks_dir == s.chunks_dir
                &&& a.session_dir == s.session_dir
                &&& a.reason@ == text.0
                &&& a.remedy@ == text.1
            },
        }
    }
}

/// How many chunks are left of a session, and why that is told.
fn find_leftover(
    session: &MeetingSessionState,
    dir: &str,
    recorded: Result<Vec<String>, ComlinkError>,
    found: Result<Vec<String>, String>,
) -> (r: Option<(usize, String, bool)>)
    ensures
        match leftover_of(*session, dir@, recorded, found) {
            None => r is None,
            Some((count, reason, unrecorded)) => r matches Some((n, text, b)) && n == count && text@
                == reason && b == unrecorded,
        },
{
    let recorded = match recorded {
        Ok(recorded) => recorded,
        Err(e) => {
            return Some(
                (
                    0,
                    cat4("unreadable chunks dir under ", &session.chunks_dir, ": ", &e.message()),
                    false,
                ),
            );
        },
    };
    let found = match found {
        Ok(found) => found,
        Err(m) => return Some((0, cat2("unreadable chunks dir: ", &m), false)),
    };
    let extra = count_outside(&found, &recorded);
    let known = count_distinct(&recorded);
    let count = known.saturating_add(extra);
    if count == 0 {
        return None;
    }
    let status = session.status.as_str();
    if extra > 0 {
        let mut reason = cat6(
            "retention.audio=false and ",
            &usize_text(extra),
            " chunk WAV(s) under ",
            &join_path(dir, "chunks"),
            " are outside the chunks dir recorded in session.json (",
            &session.chunks_dir,
        );
        reason.append("); was the data dir moved or restored? (status ");
        reason.append(status);
        reason.append(")");
        Some((count, reason, true))
    } else if session.status == MeetingStatus::Recording {
        Some(
            (
                count,
                "stale recording: retention.audio=false, chunk WAVs remain and the recorder is not verified running".to_owned(),
                false,
            ),
        )
    } else {
        Some(
            (
                count,
                cat3("retention.audio=false but chunk WAVs remain (status ", status, ")"),
                false,
            ),
        )
    }
}

/// Why audio is told of and what to do about it.
fn find_advice(
    session: &MeetingSessionState,
    dir: &str,
    reason: String,
    unrecorded: bool,
    invalid: Option<String>,
) -> (r: (String, String))
    ensures
        (r.0@, r.1@) == advice(*session, dir@, reason@, unrecorded, opt_text(invalid)),
{
    if unrecorded {
        return (
            reason,
            cat5(
                "inspect ",
                &join_path(dir, "chunks"),
                "; `comlink meet finalize` deletes only the recorded chunks dir ",
                &session.chunks_dir,
                ", so remove WAVs outside it by hand",
            ),
        );
    }
    if session.status == MeetingStatus::Recording {
        return (reason, cat2("comlink meet stop ", &session.session_id));
    }
    match invalid {
        Some(fault) => (
            cat6(
                &reason,
                "; the JSON export at ",
                &session.json_export_path,
                " is invalid (",
                &fault,
                "), and `comlink meet finalize` never overwrites an existing export",
            ),
            cat5(
                "fix or remove the invalid export at ",
                &session.json_export_path,
                ", then run `comlink meet finalize ",
                &session.session_id,
                "`",
            ),
        ),
        None => (reason, cat2("comlink meet finalize ", &session.session_id)),
    }
}

/// What is told of a session that can be read. Chunks that lie in its directory are
/// counted beside those that lie where it says, so that a store that was moved hides
/// none.
pub fn readable_session_leftover(
    session: MeetingSessionState,
    dir: &str,
    verified_running: bool,
    recorded: Result<Vec<String>, ComlinkError>,
    found: Result<Vec<String>, String>,
    export_error: Option<ComlinkError>,
    export_may_exist: bool,
) -> (r: Option<UnretainedMeetingAudio>)
    ensures
        is_readable_leftover(
            session,
            dir@,
            verified_running,
            recorded,
            found,
            export_error,
            export_may_exist,
            r,
        ),
{
    if session.retention.audio {
        return None;
    }
    if session.status == MeetingStatus::Recording && verified_running {
        return None;
    }
    let (chunk_files, reason, unrecorded) = match find_leftover(&session, dir, recorded, found) {
        Some(found) => found,
        None => return None,
    };
    let invalid = match export_error {
        Some(e) => match invalid_export_error(&session, &e, export_may_exist) {
            Some(ComlinkError::MeetingExportInvalid { id, path, reason }) => Some(reason),
            _ => None,
        },
        None => None,
    };
    let (reason, remedy) = find_advice(&session, dir, reason, unrecorded, invalid);
    Some(
        UnretainedMeetingAudio {
            status: session.status.as_str(),
            chunks_dir: session.chunks_dir,
            session_dir: session.session_dir,
            session_id: session.session_id,
            chunk_files,
            reason,
            remedy,
        },
    )
}

/// Whether `r` is what is told of a directory whose session cannot be read: what it
/// keeps is not known, so any chunk counts.
pub open spec fn is_unreadable_leftover(
    dir: Seq<char>,
    id: Seq<char>,
    error: ComlinkError,
    found: Result<Vec<String>, String>,
    r: Option<UnretainedMeetingAudio>,
) -> bool {
    let told = match found {
        Ok(f) => if f@.len() == 0 {
            None
        } else {
            Some(
                (
                    f@.len() as int,
                    "unreadable session.json ("@ + error.text() + ") and chunk WAVs remain"@,
                ),
            )
        },
        Err(m) => Some(
            (
                0int,
                "unreadable session.json ("@ + error.text() + ") and unreadable chunks dir: "@ + m@,
            ),
        ),
    };
    match told {
        None => r is None,
        Some((count, reason)) => {
            &&& r matches Some(a)
            &&& a.session_id@ == id
            &&& a.status@ == "unknown"@
            &&& a.chunk_files == count
            &&& a.chunks_dir@ == joined(dir, "chunks"@)
            &&& a.session_dir@ == dir
            &&& a.reason@ == reason
            &&& a.remedy@ == "inspect "@ + dir
                + "; repair session.json or delete the chunks directory"@
        },
    }
}

/// What is told of a directory whose session cannot be read.
pub fn unreadable_session_leftover(
    dir: &str,
    id: &str,
    error: &ComlinkError,
    found: Result<Vec<String>, String>,
) -> (r: Option<UnretainedMeetingAudio>)
    ensures
        is_unreadable_leftover(dir@, id@, *error, found, r),
{
    let (chunk_files, reason) = match found {
        Ok(found) => {
            if found.len() == 0 {
                return None;
            }
            (
                found.len(),
                cat3(
                    "unreadable session.json (",
                    &error.message(),
                    ") and chunk WAVs remain",
                ),
            )
        },
        Err(m) => (
            0,
            cat4(
                "unreadable session.json (",
                &error.message(),
                ") and unreadable chunks dir: ",
                &m,
            ),
        ),
    };
    Some(
        UnretainedMeetingAudio {
            session_id: id.to_owned(),
            status: "unknown",
            chunk_files,
            chunks_dir: join_path(dir, "chunks"),
            session_dir: dir.to_owned(),
            reason,
            remedy: cat3("inspect ", dir, "; repair session.json or delete the chunks directory"),
        },
    )
}

/// The name of a directory.
pub open spec fn dir_name(dir: Seq<char>) -> Seq<char> {
    match file_name(dir) {
        Some(name) => name,
        None => Seq::empty(),
    }
}

/// Whether `r` is what is told of a session directory.
pub open spec fn is_leftover(f: SessionDirFacts, r: Option<UnretainedMeetingAudio>) -> bool {
    match f.session {
        Ok(s) => is_readable_leftover(
            s,
            f.dir@,
            f.verified_running,
            f.recorded,
            f.found,
            f.export_error,
            f.export_may_exist,
            r,
        ),
        Err(e) => is_unreadable_leftover(f.dir@, dir_name(f.dir@), e, f.found, r),
    }
}

/// What is told of a session directory.
pub fn session_dir_leftover(facts: SessionDirFacts) -> (r: Option<UnretainedMeetingAudio>)
    ensures
        is_leftover(facts, r),
{
    match facts.session {
        Ok(session) => readable_session_leftover(
            session,
            &facts.dir,
            facts.verified_running,
            facts.recorded,
            facts.found,
            facts.export_error,
            facts.export_may_exist,
        ),
        Err(e) => {
            let id = match path_file_name(&facts.dir) {
                Some(name) => name,
                None => String::new(),
            };
            unreadable_session_leftover(&facts.dir, &id, &e, facts.found)
        },
    }
}

/// Whether `r` is what is told of the first `n` session directories.
pub open spec fn are_leftovers(f: Seq<SessionDirFacts>, n: int, r: Seq<UnretainedMeetingAudio>) -> bool
    decreases n,
{
    if n <= 0 {
        r.len() == 0
    } else {
        ||| is_leftover(f[n - 1], None) && are_leftovers(f, n - 1, r)
        ||| r.len() > 0 && is_leftover(f[n - 1], Some(r.last())) && are_leftovers(
            f,
            n - 1,
            r.drop_last(),
        )
    }
}

/// The audio of meetings that nobody asked to keep. The search never fails: what
/// cannot be read is told, and just a search without any finding is clean.
pub fn meeting_audio_audit(dirs: Vec<SessionDirFacts>, scan_errors: Vec<MeetingAudioScanError>) -> (r:
    MeetingAudioAudit)
    ensures
        are_leftovers(dirs@, dirs@.len() as int, r.unretained_leftovers@),
        r.scan_errors == scan_errors,
        r.clean == (r.unretained_leftovers@.len() == 0 && scan_errors@.len() == 0),
{
    let ghost all = dirs@;
    let mut leftovers: Vec<UnretainedMeetingAudio> = Vec::new();
    for facts in it: dirs
        invariant
            it.seq() == all,
            are_leftovers(all, it.index(), leftovers@),
    {
        let ghost before = leftovers@;
        assert(facts == all[it.index()]);
        if let Some(leftover) = session_dir_leftover(facts) {
            leftovers.push(leftover);
            assert(leftovers@.drop_last() =~= before);
        }
    }
    MeetingAudioAudit {
        clean: leftovers.len() == 0 && scan_errors.len() == 0,
        unretained_leftovers: leftovers,
        scan_errors,
    }
}

/// Every chunk that lies in a session's directory or where the session says is told
/// of, unless the session keeps its audio or is being recorded.
pub proof fn law_no_leftover_is_hidden(f: SessionDirFacts, r: Option<UnretainedMeetingAudio>)
    requires
        is_leftover(f, r),
        f.session matches Ok(s) ==> !is_exempt(s, f.verified_running) && (f.recorded matches Ok(v)
            ==> v@.len() > 0 || (f.found matches Ok(w) ==> w@.len() > 0)),
        f.session is Err ==> (f.found matches Ok(w) ==> w@.len() > 0),
    ensures
        r is Some,
{
    if let Ok(s) = f.session {
        if let (Ok(v), Ok(w)) = (f.recorded, f.found) {
            let a = texts(v@);
            let b = texts(w@);
            if v@.len() > 0 {
                lemma_distinct_counts(a, a.len() as int);
            } else {
                lemma_outside_counts(b, b.len() as int, a);
            }
        }
    }
}

/// Some paths are at least one different path.
proof fn lemma_distinct_counts(p: Seq<Seq<char>>, n: int)
    requires
        0 < n <= p.len(),
    ensures
        distinct(p, n) > 0,
    decreases n,
{
    if n > 1 {
        lemma_distinct_counts(p, n - 1);
    } else {
        assert(distinct(p, 0) == 0);
    }
}

/// No path is among none.
proof fn lemma_outside_counts(p: Seq<Seq<char>>, n: int, others: Seq<Seq<char>>)
    requires
        0 < n <= p.len(),
        others.len() == 0,
    ensures
        outside(p, n, others) > 0,
    decreases n,
{
    if n > 1 {
        lemma_outside_counts(p, n - 1, others);
    } else {
        assert(outside(p, 0, others) == 0);
    }
}

/// The WAV files found are WAV files, and every one that lies in the directory itself is
/// found, as is what is found in each directory below that is looked into.
pub proof fn law_every_wav_file_is_found(dir: Seq<char>, e: Seq<TreeEntry>, n: int, depth: nat)
    requires
        0 <= n <= e.len(),
        entry_wavs(dir, e, n, depth) is Ok,
    ensures
        forall|k: int|
            0 <= k < entry_wavs(dir, e, n, depth)->Ok_0.len() ==> is_wav(
                #[trigger] entry_wavs(dir, e, n, depth)->Ok_0[k],
            ),
        forall|i: int|
            0 <= i < n ==> (#[trigger] e[i] matches TreeEntry::File(path) ==> is_wav(path@)
                ==> entry_wavs(dir, e, n, depth)->Ok_0.contains(path@)),
        forall|i: int|
            0 <= i < n && depth > 0 ==> (#[trigger] e[i] matches TreeEntry::Directory(
                path,
                DirTree::Entries(below),
            ) ==> entry_wavs(path@, below@, below@.len() as int, (depth - 1) as nat) is Ok
                && forall|k: int|
                0 <= k < entry_wavs(path@, below@, below@.len() as int, (depth - 1) as nat)->Ok_0.len()
                    ==> entry_wavs(dir, e, n, depth)->Ok_0.contains(
                    #[trigger] entry_wavs(
                        path@,
                        below@,
                        below@.len() as int,
                        (depth - 1) as nat,
                    )->Ok_0[k],
                )),
        forall|i: int|
            0 <= i < n ==> !(#[trigger] e[i] is Unreadable) && !(e[i] is Unknown),
    decreases depth, n,
{
    if n > 0 {
        law_every_wav_file_is_found(dir, e, n - 1, depth);
        let a = entry_wavs(dir, e, n - 1, depth)->Ok_0;
        let b = entry_wavs(dir, e, n, depth)->Ok_0;
        assert forall|x: Seq<char>| #[trigger] a.contains(x) implies b.contains(x) by {
            let k = choose|k: int| 0 <= k < a.len() && a[k] == x;
            assert(b[k] == x);
        }
        match e[n - 1] {
            TreeEntry::File(path) => {
                if is_wav(path@) {
                    assert(b[b.len() - 1] == path@);
                }
            },
            TreeEntry::Directory(path, DirTree::Entries(below)) => {
                if depth > 0 {
                    let m = below@.len() as int;
                    let d = (depth - 1) as nat;
                    let more = entry_wavs(path@, below@, m, d)->Ok_0;
                    law_every_wav_file_is_found(path@, below@, m, d);
                    assert(b == a + more);
                    assert forall|k: int| 0 <= k < more.len() implies b.contains(
                        #[trigger] more[k],
                    ) by {
                        assert(b[a.len() + k] == more[k]);
                    }
                    assert forall|k: int| 0 <= k < b.len() implies is_wav(#[trigger] b[k]) by {
                        if k >= a.len() {
                            assert(b[k] == more[k - a.len()]);
                        }
                    }
                }
            },
            _ => {},
        }
    }
}

/// Paths that all differ are counted one by one, and a path that is there already counts no
/// more.
pub proof fn law_paths_are_counted_once(p: Seq<Seq<char>>, n: int)
    requires
        0 <= n <= p.len(),
    ensures
        n > 0 ==> distinct(p, n) > 0,
        distinct(p, n) <= n,
        (forall|i: int, j: int|
            0 <= i < j < n ==> !is_same_path(#[trigger] p[j], #[trigger] p[i])) ==> distinct(p, n)
            == n,
        n > 0 && (exists|i: int| 0 <= i < n - 1 && is_same_path(p[n - 1], #[trigger] p[i]))
            ==> distinct(p, n) == distinct(p, n - 1),
    decreases n,
{
    if n > 0 {
        law_paths_are_counted_once(p, n - 1);
        if forall|i: int, j: int|
            0 <= i < j < n ==> !is_same_path(#[trigger] p[j], #[trigger] p[i]) {
            assert(!is_among(p[n - 1], p, n - 1));
        }
        if n == 1 {
            assert(!is_among(p[0], p, 0));
        }
    }
}

/// Paths are outside others just where one of them is not among those.
proof fn lemma_outside(p: Seq<Seq<char>>, n: int, others: Seq<Seq<char>>)
    requires
        0 <= n <= p.len(),
    ensures
        outside(p, n, others) <= n,
        outside(p, n, others) == 0 <==> forall|i: int|
            0 <= i < n ==> is_among(#[trigger] p[i], others, others.len() as int),
        others.len() == 0 ==> outside(p, n, others) == n,
    decreases n,
{
    if n > 0 {
        lemma_outside(p, n - 1, others);
        if outside(p, n, others) == 0 {
            assert forall|i: int| 0 <= i < n implies is_among(
                #[trigger] p[i],
                others,
                others.len() as int,
            ) by {}
        } else {
            if is_among(p[n - 1], others, others.len() as int) {
                let i = choose|i: int|
                    0 <= i < n - 1 && !is_among(#[trigger] p[i], others, others.len() as int);
                assert(!is_among(p[i], others, others.len() as int));
            }
        }
    }
}

/// Nothing is told of a session that keeps its audio, or is certain to be recording, or has
/// no chunk left. Of any other session that can be read it is told where chunks are left or
/// cannot be listed, by its own name and place; chunks that lie where the session says, each
/// once, are counted.
pub proof fn law_just_leftovers_are_told(f: SessionDirFacts, r: Option<UnretainedMeetingAudio>)
    requires
        is_leftover(f, r),
        f.session is Ok,
    ensures
        ({
            let s = f.session->Ok_0;
            let exempt = s.retention.audio || s.status == MeetingStatus::Recording
                && f.verified_running;
            &&& exempt ==> r is None
            &&& !exempt && (f.recorded is Err || f.found is Err) ==> r is Some
            &&& !exempt && f.recorded is Ok && f.found is Ok ==> (r is Some <==> f.recorded->Ok_0@.len()
                > 0 || f.found->Ok_0@.len() > 0)
            &&& r matches Some(a) ==> a.session_id == s.session_id && a.session_dir == s.session_dir
                && a.chunks_dir == s.chunks_dir && a.status@ == s.status.name()
            &&& !exempt && f.recorded is Ok && f.found is Ok && f.found->Ok_0@.len() == 0
                && f.recorded->Ok_0@.len() > 0 && f.recorded->Ok_0@.len() <= usize::MAX && (forall|
                i: int,
                j: int,
            |
                0 <= i < j < f.recorded->Ok_0@.len() ==> !is_same_path(
                    #[trigger] texts(f.recorded->Ok_0@)[j],
                    #[trigger] texts(f.recorded->Ok_0@)[i],
                )) ==> r->Some_0.chunk_files == f.recorded->Ok_0@.len()
        }),
{
    let s = f.session->Ok_0;
    if f.recorded is Ok && f.found is Ok {
        let a = texts(f.recorded->Ok_0@);
        let b = texts(f.found->Ok_0@);
        law_paths_are_counted_once(a, a.len() as int);
        lemma_outside(b, b.len() as int, a);
    }
}

/// The directories of the store are told, each once and in order, and no other entry of it.
pub proof fn law_directories_among_entries(e: Seq<ListedEntry>, n: int, x: Seq<char>)
    requires
        0 <= n <= e.len(),
    ensures
        dirs_among(e, n).contains(x) <==> exists|i: int|
            0 <= i < n && (#[trigger] e[i] matches ListedEntry::Found(
                path,
                Ok(EntryKind::Directory),
            ) && path@ == x),
    decreases n,
{
    if n > 0 {
        law_directories_among_entries(e, n - 1, x);
        let a = dirs_among(e, n - 1);
        let b = dirs_among(e, n);
        if a.contains(x) {
            let k = choose|k: int| 0 <= k < a.len() && a[k] == x;
            assert(b[k] == x);
        }
        if b.contains(x) && !a.contains(x) {
            let k = choose|k: int| 0 <= k < b.len() && b[k] == x;
            if k < a.len() {
                assert(a[k] == x);
            }
        }
        if let ListedEntry::Found(path, Ok(EntryKind::Directory)) = e[n - 1] {
            assert(b[b.len() - 1] == path@);
        }
    }
}

/// A directory whose session cannot be read is told of where any chunk lies in it, each
/// counted, or where its chunks cannot be listed; by the name of the directory.
pub proof fn law_unreadable_sessions_hide_no_audio(
    f: SessionDirFacts,
    r: Option<UnretainedMeetingAudio>,
)
    requires
        is_leftover(f, r),
        f.session is Err,
    ensures
        f.found matches Ok(v) ==> (r is Some <==> v@.len() > 0) && (r matches Some(a)
            ==> a.chunk_files == v@.len()),
        f.found is Err ==> r is Some,
        r matches Some(a) ==> a.session_dir@ == f.dir@ && a.status@ == "unknown"@ && a.session_id@
            == dir_name(f.dir@),
{
}

/// What is advised: a recording is stopped, any other session finalized, chunks elsewhere are
/// looked at by hand, and an export that is not valid is put out of the way first.
pub proof fn law_advice_fits(
    s: MeetingSessionState,
    dir: Seq<char>,
    reason: Seq<char>,
    invalid: Option<Seq<char>>,
)
    ensures
        s.status == MeetingStatus::Recording ==> advice(s, dir, reason, false, invalid).1
            == "comlink meet stop "@ + s.session_id@,
        s.status != MeetingStatus::Recording && invalid is None ==> advice(
            s,
            dir,
            reason,
            false,
            invalid,
        ) == (reason, "comlink meet finalize "@ + s.session_id@),
        s.status != MeetingStatus::Recording && invalid is Some ==> starts_with(
            advice(s, dir, reason, false, invalid).1,
            "fix or remove the invalid export at "@ + s.json_export_path@,
        ),
        starts_with(
            advice(s, dir, reason, true, invalid).1,
            "inspect "@ + joined(dir, "chunks"@),
        ),
{
    let a = "fix or remove the invalid export at "@ + s.json_export_path@;
    if s.status != MeetingStatus::Recording && invalid is Some {
        let t = advice(s, dir, reason, false, invalid).1;
        assert(t.take(a.len() as int) =~= a);
    }
    let b = "inspect "@ + joined(dir, "chunks"@);
    let t = advice(s, dir, reason, true, invalid).1;
    assert(t.take(b.len() as int) =~= b);
}

} // verus!
