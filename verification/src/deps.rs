//! The programs and the model that transcription needs: how they are found and
//! what is reported where they are not.
use vstd::prelude::*;

use crate::error::ComlinkError;
use crate::paths::{component_count, path_keys};
use crate::strings::{starts_with, str_strip_prefix, texts};

verus! {

/// What is known of a program or a file.
#[derive(Debug, PartialEq, Eq)]
pub enum DependencyState {
    Found(String),
    Missing,
    NotFound(String),
    NotExecutable(String),
}

impl Clone for DependencyState {
    fn clone(&self) -> (r: Self)
        ensures
            r == *self,
    {
        match self {
            DependencyState::Found(p) => DependencyState::Found(p.clone()),
            DependencyState::Missing => DependencyState::Missing,
            DependencyState::NotFound(p) => DependencyState::NotFound(p.clone()),
            DependencyState::NotExecutable(p) => DependencyState::NotExecutable(p.clone()),
        }
    }
}

impl DependencyState {
    /// Whether it can be used.
    pub fn is_ok(&self) -> (r: bool)
        ensures
            r == (self is Found),
    {
        match self {
            DependencyState::Found(_) => true,
            _ => false,
        }
    }

    /// The path that is known of it.
    pub fn path(&self) -> (r: Option<&str>)
        ensures
            match *self {
                DependencyState::Found(p)
                | DependencyState::NotFound(p)
                | DependencyState::NotExecutable(p) => r matches Some(s) && s@ == p@,
                DependencyState::Missing => r is None,
            },
    {
        match self {
            DependencyState::Found(p)
            | DependencyState::NotFound(p)
            | DependencyState::NotExecutable(p) => Some(p.as_str()),
            DependencyState::Missing => None,
        }
    }
}

/// What is known of everything that transcription needs.
#[derive(Debug)]
pub struct DependencyReport {
    pub ffmpeg: DependencyState,
    pub ffprobe: DependencyState,
    pub whisper_cpp: DependencyState,
    pub whisper_model: DependencyState,
}

/// Everything that transcription needs, found.
#[derive(Debug)]
pub struct RuntimeDeps {
    pub ffmpeg: String,
    pub ffprobe: Option<String>,
    pub whisper_cpp: String,
    pub whisper_model: String,
}

impl Clone for RuntimeDeps {
    fn clone(&self) -> (r: Self)
        ensures
            r == *self,
    {
        RuntimeDeps {
            ffmpeg: self.ffmpeg.clone(),
            ffprobe: crate::strings::copy_opt(&self.ffprobe),
            whisper_cpp: self.whisper_cpp.clone(),
            whisper_model: self.whisper_model.clone(),
        }
    }
}

/// The names under which ffmpeg is looked for.
pub open spec fn ffmpeg_names() -> Seq<Seq<char>> {
    seq!["ffmpeg"@]
}

/// The names under which ffprobe is looked for.
pub open spec fn ffprobe_names() -> Seq<Seq<char>> {
    seq!["ffprobe"@]
}

/// The names under which whisper.cpp is looked for. The generic `main` is not
/// one of them.
pub open spec fn whisper_names() -> Seq<Seq<char>> {
    seq!["whisper-cli"@, "whisper.cpp"@]
}

/// The names under which ffmpeg is looked for.
pub fn ffmpeg_candidates() -> (r: Vec<String>)
    ensures
        texts(r@) == ffmpeg_names(),
{
    let mut r: Vec<String> = Vec::new();
    r.push("ffmpeg".to_owned());
    assert(texts(r@) =~= ffmpeg_names());
    r
}

/// The names under which ffprobe is looked for.
pub fn ffprobe_candidates() -> (r: Vec<String>)
    ensures
        texts(r@) == ffprobe_names(),
{
    let mut r: Vec<String> = Vec::new();
    r.push("ffprobe".to_owned());
    assert(texts(r@) =~= ffprobe_names());
    r
}

/// The names under which whisper.cpp is looked for.
pub fn whisper_cpp_candidates() -> (r: Vec<String>)
    ensures
        texts(r@) == whisper_names(),
{
    let mut r: Vec<String> = Vec::new();
    r.push("whisper-cli".to_owned());
    r.push("whisper.cpp".to_owned());
    assert(texts(r@) =~= whisper_names());
    r
}

/// Whether a text is a path rather than the name of a command.
pub open spec fn looks_like_path(p: Seq<char>) -> bool {
    starts_with(p, "/"@) || path_keys(p).len() > 1
}

/// Whether a text is a path rather than the name of a command.
pub fn is_path_like(path: &str) -> (r: bool)
    ensures
        r == looks_like_path(path@),
{
    str_strip_prefix(path, "/").is_some() || component_count(path) > 1
}

/// What the file system says of a program that the environment names.
#[derive(Debug)]
pub struct OverrideFacts {
    /// The value of the variable.
    pub value: String,
    /// Whether it is a file that can be run.
    pub executable: bool,
    /// Whether it is there at all.
    pub present: bool,
    /// Where a command of this name is found on `PATH`.
    pub on_path: Option<String>,
}

/// The first candidate that was found.
pub open spec fn first_found(c: Seq<Option<String>>) -> Option<String>
    decreases c.len(),
{
    if c.len() == 0 {
        None
    } else {
        match c[0] {
            Some(p) => Some(p),
            None => first_found(c.drop_first()),
        }
    }
}

/// The state of a program: what the environment names counts alone; else the
/// first candidate found on `PATH`. A name without a directory that is not a
/// file here is looked up on `PATH`.
pub open spec fn binary_state(o: Option<OverrideFacts>, candidates: Seq<Option<String>>) -> DependencyState {
    match o {
        Some(f) => if f.executable {
            DependencyState::Found(f.value)
        } else if f.present {
            DependencyState::NotExecutable(f.value)
        } else if !looks_like_path(f.value@) && f.on_path is Some {
            DependencyState::Found(f.on_path->0)
        } else {
            DependencyState::NotFound(f.value)
        },
        None => match first_found(candidates) {
            Some(p) => DependencyState::Found(p),
            None => DependencyState::Missing,
        },
    }
}

/// The first candidate that was found.
fn first_candidate(candidates: &Vec<Option<String>>) -> (r: Option<String>)
    ensures
        r == first_found(candidates@),
{
    let ghost all = candidates@;
    let mut i: usize = 0;
    assert(all.skip(0) =~= all);
    while i < candidates.len()
        invariant
            i <= candidates@.len(),
            candidates@ == all,
            first_found(all) == first_found(all.skip(i as int)),
        decreases candidates@.len() - i,
    {
        assert(all.skip(i as int).drop_first() =~= all.skip(i + 1));
        if let Some(p) = &candidates[i] {
            return Some(p.clone());
        }
        i += 1;
    }
    None
}

/// The state of a program, from where its candidates were found.
pub fn resolve_binary(named: Option<OverrideFacts>, candidates: Vec<Option<String>>) -> (r:
    DependencyState)
    ensures
        r == binary_state(named, candidates@),
{
    match named {
        Some(f) => if f.executable {
            DependencyState::Found(f.value)
        } else if f.present {
            DependencyState::NotExecutable(f.value)
        } else {
            let path_like = is_path_like(&f.value);
            match f.on_path {
                Some(p) => if !path_like {
                    DependencyState::Found(p)
                } else {
                    DependencyState::NotFound(f.value)
                },
                None => DependencyState::NotFound(f.value),
            }
        },
        None => match first_candidate(&candidates) {
            Some(p) => DependencyState::Found(p),
            None => DependencyState::Missing,
        },
    }
}

/// The state of the model file.
pub fn resolve_model(path: Option<String>, is_file: bool) -> (r: DependencyState)
    ensures
        r == match path {
            Some(p) => if is_file {
                DependencyState::Found(p)
            } else {
                DependencyState::NotFound(p)
            },
            None => DependencyState::Missing,
        },
{
    match path {
        Some(p) => if is_file {
            DependencyState::Found(p)
        } else {
            DependencyState::NotFound(p)
        },
        None => DependencyState::Missing,
    }
}

/// The path of a program, or why it cannot be used.
pub fn require_binary(state: DependencyState, env_name: &'static str, label: &'static str) -> (r:
    Result<String, ComlinkError>)
    ensures
        match state {
            DependencyState::Found(p) => r == Ok::<String, ComlinkError>(p),
            DependencyState::NotFound(p) => r matches Err(
                ComlinkError::DependencyPathMissing { name, path },
            ) && name@ == env_name@ && path == p,
            DependencyState::NotExecutable(p) => r matches Err(
                ComlinkError::DependencyNotExecutable { name, path },
            ) && name@ == env_name@ && path == p,
            DependencyState::Missing => r matches Err(ComlinkError::DependencyMissing(n)) && n@
                == label@,
        },
{
    match state {
        DependencyState::Found(path) => Ok(path),
        DependencyState::NotFound(path) => Err(
            ComlinkError::DependencyPathMissing { name: env_name, path },
        ),
        DependencyState::NotExecutable(path) => Err(
            ComlinkError::DependencyNotExecutable { name: env_name, path },
        ),
        DependencyState::Missing => Err(ComlinkError::DependencyMissing(label)),
    }
}

/// The path of a model, where it is a file.
pub fn require_existing_model(path: String, is_file: bool) -> (r: Result<String, ComlinkError>)
    ensures
        if is_file {
            r == Ok::<String, ComlinkError>(path)
        } else {
            r matches Err(ComlinkError::ModelPathMissing(p)) && p == path
        },
{
    if is_file {
        Ok(path)
    } else {
        Err(ComlinkError::ModelPathMissing(path))
    }
}

/// Everything that transcription needs, or what is missing first: ffmpeg, then
/// whisper.cpp, then the model. ffprobe may be missing.
pub fn runtime_from_states(
    ffmpeg: DependencyState,
    ffprobe: DependencyState,
    whisper_cpp: DependencyState,
    model: Option<String>,
    model_is_file: bool,
) -> (r: Result<RuntimeDeps, ComlinkError>)
    ensures
        match ffmpeg {
            DependencyState::Missing => r matches Err(ComlinkError::DependencyMissing(n)) && n@
                == "ffmpeg"@,
            DependencyState::NotFound(p) => r matches Err(
                ComlinkError::DependencyPathMissing { name, path },
            ) && name@ == "COMLINK_FFMPEG"@ && path == p,
            DependencyState::NotExecutable(p) => r matches Err(
                ComlinkError::DependencyNotExecutable { name, path },
            ) && name@ == "COMLINK_FFMPEG"@ && path == p,
            DependencyState::Found(f) => match whisper_cpp {
                DependencyState::Missing => r matches Err(ComlinkError::DependencyMissing(n)) && n@
                    == "whisper.cpp"@,
                DependencyState::NotFound(p) => r matches Err(
                    ComlinkError::DependencyPathMissing { name, path },
                ) && name@ == "COMLINK_WHISPER_CPP"@ && path == p,
                DependencyState::NotExecutable(p) => r matches Err(
                    ComlinkError::DependencyNotExecutable { name, path },
                ) && name@ == "COMLINK_WHISPER_CPP"@ && path == p,
                DependencyState::Found(w) => match model {
                    None => r matches Err(ComlinkError::ModelMissing),
                    Some(m) => if !model_is_file {
                        r matches Err(ComlinkError::ModelPathMissing(p)) && p == m
                    } else {
                        r == Ok::<RuntimeDeps, ComlinkError>(
                            RuntimeDeps {
                                ffmpeg: f,
                                ffprobe: match ffprobe {
                                    DependencyState::Found(p) => Some(p),
                                    _ => None,
                                },
                                whisper_cpp: w,
                                whisper_model: m,
                            },
                        )
                    },
                },
            },
        },
{
    let ffmpeg = match require_binary(ffmpeg, "COMLINK_FFMPEG", "ffmpeg") {
        Ok(p) => p,
        Err(e) => {
            return Err(e);
        },
    };
    let ffprobe = match ffprobe {
        DependencyState::Found(p) => Some(p),
        _ => None,
    };
    let whisper_cpp = match require_binary(whisper_cpp, "COMLINK_WHISPER_CPP", "whisper.cpp") {
        Ok(p) => p,
        Err(e) => {
            return Err(e);
        },
    };
    let whisper_model = match model {
        Some(m) => match require_existing_model(m, model_is_file) {
            Ok(p) => p,
            Err(e) => {
                return Err(e);
            },
        },
        None => {
            return Err(ComlinkError::ModelMissing);
        },
    };
    Ok(RuntimeDeps { ffmpeg, ffprobe, whisper_cpp, whisper_model })
}

/// What the environment names counts alone: it is found where it can be run. Where it names
/// nothing, the first candidate that was found is used, and the program is missing where
/// none was.
pub proof fn law_programs_are_found_in_order(
    o: Option<OverrideFacts>,
    candidates: Seq<Option<String>>,
    i: int,
)
    ensures
        o matches Some(f) ==> (f.executable ==> binary_state(o, candidates)
            == DependencyState::Found(f.value)),
        o matches Some(f) ==> (!f.executable && f.present ==> binary_state(o, candidates)
            == DependencyState::NotExecutable(f.value)),
        o is None && 0 <= i < candidates.len() && candidates[i] is Some && (forall|j: int|
            0 <= j < i ==> (#[trigger] candidates[j]) is None) ==> binary_state(o, candidates)
            == DependencyState::Found(candidates[i]->0),
        o is None && (forall|j: int|
            0 <= j < candidates.len() ==> (#[trigger] candidates[j]) is None) ==> binary_state(
            o,
            candidates,
        ) == DependencyState::Missing,
{
    lemma_first_found(candidates);
}

/// The first that was found is found.
proof fn lemma_first_found(c: Seq<Option<String>>)
    ensures
        forall|i: int|
            0 <= i < c.len() && (#[trigger] c[i]) is Some && (forall|j: int|
                0 <= j < i ==> (#[trigger] c[j]) is None) ==> first_found(c) == c[i],
        (forall|j: int| 0 <= j < c.len() ==> (#[trigger] c[j]) is None) ==> first_found(c) is None,
    decreases c.len(),
{
    if c.len() > 0 {
        let t = c.drop_first();
        lemma_first_found(t);
        assert forall|i: int| 0 <= i < t.len() implies #[trigger] t[i] == c[i + 1] by {}
        assert forall|i: int|
            0 <= i < c.len() && (#[trigger] c[i]) is Some && (forall|j: int|
                0 <= j < i ==> (#[trigger] c[j]) is None) implies first_found(c) == c[i] by {
            if i > 0 {
                assert(c[0] is None);
                assert(t[i - 1] == c[i]);
                assert forall|j: int| 0 <= j < i - 1 implies (#[trigger] t[j]) is None by {
                    assert(c[j + 1] is None);
                }
            }
        }
        if forall|j: int| 0 <= j < c.len() ==> (#[trigger] c[j]) is None {
            assert(c[0] is None);
            assert forall|j: int| 0 <= j < t.len() implies (#[trigger] t[j]) is None by {
                assert(c[j + 1] is None);
            }
        }
    }
}

/// A name without a directory that the environment gives is looked up, and a path that it
/// gives is not.
pub proof fn law_named_programs_are_looked_up(f: OverrideFacts, candidates: Seq<Option<String>>)
    requires
        !f.executable,
        !f.present,
    ensures
        f.value@.len() > 0 && f.value@[0] == '/' ==> binary_state(Some(f), candidates)
            == DependencyState::NotFound(f.value),
        f.on_path is None ==> binary_state(Some(f), candidates) == DependencyState::NotFound(f.value),
        !looks_like_path(f.value@) ==> (f.on_path matches Some(p) ==> binary_state(
            Some(f),
            candidates,
        ) == DependencyState::Found(p)),
{
    reveal_strlit("/");
    if f.value@.len() > 0 && f.value@[0] == '/' {
        assert(f.value@.take(1) =~= "/"@);
    }
}

} // verus!
