//! Speech recognition with whisper.cpp: its arguments, when a run is repeated
//! without the GPU, and what its output stands for.
use vstd::prelude::*;

use crate::error::ComlinkError;
use crate::strings::{
    all_trimmed, cat4, contains, drop_empty, eq_ignore_case, join, law_trim_idempotent, lemma_holds,
    lemma_said_lines_joined, lemma_said_trim, lines, lossy_text, lower, nonempty, occurs_at, said,
    str_contains, str_join, str_lines, str_trim, text_lossy, texts, to_lower, trim, trim_all,
};

verus! {

/// A stretch of recognised speech.
#[derive(Debug)]
pub struct Segment {
    pub start_ms: u64,
    pub end_ms: u64,
    pub text: String,
}

impl Clone for Segment {
    fn clone(&self) -> (r: Self)
        ensures
            r == *self,
    {
        Segment { start_ms: self.start_ms, end_ms: self.end_ms, text: self.text.clone() }
    }
}

/// Where recognised audio came from.
#[derive(Debug)]
pub struct SourceMetadata {
    pub path: String,
    pub normalized_sample_rate_hz: u32,
    pub normalized_channels: u16,
}

impl Clone for SourceMetadata {
    fn clone(&self) -> (r: Self)
        ensures
            r == *self,
    {
        SourceMetadata {
            path: self.path.clone(),
            normalized_sample_rate_hz: self.normalized_sample_rate_hz,
            normalized_channels: self.normalized_channels,
        }
    }
}

/// The recognised text of one audio file.
#[derive(Debug, Clone)]
pub struct Transcript {
    pub text: String,
    pub engine: String,
    pub model: String,
    pub duration_ms: u64,
    pub segments: Vec<Segment>,
    pub source: SourceMetadata,
}

/// The whisper.cpp program and the model that it runs with.
#[derive(Debug, Clone)]
pub struct WhisperCppEngine {
    pub binary: String,
    pub model: String,
}

/// The text of whisper.cpp's output: its lines trimmed and joined.
pub open spec fn whisper_text(s: Seq<char>) -> Seq<char> {
    trim(join(nonempty(all_trimmed(lines(s))), " "@))
}

/// Joins the lines of whisper.cpp's output.
pub fn clean_whisper_text(text: &str) -> (r: String)
    ensures
        r@ == whisper_text(text@),
{
    str_trim(&str_join(&drop_empty(trim_all(&str_lines(text))), " "))
}

/// What a program said on its error stream, or that it said nothing.
pub open spec fn error_text(bytes: Seq<u8>) -> Seq<char> {
    let message = trim(lossy_text(bytes));
    if message.len() == 0 {
        "process exited without an error message"@
    } else {
        message
    }
}

/// What a program said on its error stream, or that it said nothing.
pub fn trim_for_error(bytes: &[u8]) -> (r: String)
    ensures
        r@ == error_text(bytes@),
{
    let message = str_trim(&text_lossy(bytes));
    if message.as_str().is_empty() {
        "process exited without an error message".to_owned()
    } else {
        message
    }
}

/// Whether a message speaks of the GPU or of its memory.
pub open spec fn blames_gpu(message: Seq<char>) -> bool {
    let m = lower(message);
    contains(m, "metal"@) || contains(m, "gpu"@) || contains(m, "ggml_metal"@) || contains(
        m,
        "failed to allocate buffer"@,
    )
}

/// Whether a message speaks of the GPU or of its memory.
pub fn message_blames_gpu(message: &str) -> (r: bool)
    ensures
        r == blames_gpu(message@),
{
    let m = to_lower(message);
    str_contains(&m, "metal") || str_contains(&m, "gpu") || str_contains(&m, "ggml_metal")
        || str_contains(&m, "failed to allocate buffer")
}

/// Whether a failed run is worth repeating without the GPU.
pub fn should_retry_without_gpu(stderr: &[u8]) -> (r: bool)
    ensures
        r == blames_gpu(lossy_text(stderr@)),
{
    message_blames_gpu(&text_lossy(stderr))
}

/// The message of two failed runs.
pub open spec fn both_errors(first: Seq<u8>, retry: Seq<u8>) -> Seq<char> {
    "initial GPU attempt failed: "@ + error_text(first) + "; CPU retry failed: "@ + error_text(
        retry,
    )
}

/// The message of two failed runs.
pub fn combine_whisper_errors(first: &[u8], retry: &[u8]) -> (r: String)
    ensures
        r@ == both_errors(first@, retry@),
{
    cat4(
        "initial GPU attempt failed: ",
        &trim_for_error(first),
        "; CPU retry failed: ",
        &trim_for_error(retry),
    )
}

/// The arguments of one whisper.cpp run.
pub open spec fn whisper_arguments(
    model: Seq<char>,
    wav: Seq<char>,
    output_base: Seq<char>,
    no_gpu: bool,
) -> Seq<Seq<char>> {
    let head = seq!["-m"@, model, "-f"@, wav];
    let tail = seq!["-otxt"@, "-of"@, output_base];
    if no_gpu {
        head.push("-ng"@) + tail
    } else {
        head + tail
    }
}

impl WhisperCppEngine {
    /// The arguments of one run, which writes its text to `output_base` with the
    /// extension `txt`.
    pub fn arguments(&self, wav_path: &str, output_base: &str, no_gpu: bool) -> (r: Vec<String>)
        ensures
            texts(r@) == whisper_arguments(self.model@, wav_path@, output_base@, no_gpu),
    {
        let mut r: Vec<String> = Vec::new();
        r.push("-m".to_owned());
        r.push(self.model.clone());
        r.push("-f".to_owned());
        r.push(wav_path.to_owned());
        if no_gpu {
            r.push("-ng".to_owned());
        }
        r.push("-otxt".to_owned());
        r.push("-of".to_owned());
        r.push(output_base.to_owned());
        assert(texts(r@) =~= whisper_arguments(self.model@, wav_path@, output_base@, no_gpu));
        r
    }

    /// The transcript that the text of a successful run stands for. Fails where
    /// there is no text.
    pub fn transcript(&self, text: &str, source: SourceMetadata, duration_ms: u64) -> (r: Result<
        Transcript,
        ComlinkError,
    >)
        ensures
            if whisper_text(text@).len() == 0 {
                r matches Err(ComlinkError::EmptyTranscript)
            } else {
                r matches Ok(t) && {
                    &&& t.text@ == whisper_text(text@)
                    &&& t.engine@ == "whisper.cpp"@
                    &&& t.model@ == self.model@
                    &&& t.duration_ms == duration_ms
                    &&& t.segments@.len() == 1
                    &&& t.segments@[0].start_ms == 0
                    &&& t.segments@[0].end_ms == duration_ms
                    &&& t.segments@[0].text@ == whisper_text(text@)
                    &&& t.source == source
                }
            },
    {
        let text = clean_whisper_text(text);
        if text.as_str().is_empty() {
            return Err(ComlinkError::EmptyTranscript);
        }
        let mut segments: Vec<Segment> = Vec::new();
        segments.push(Segment { start_ms: 0, end_ms: duration_ms, text: text.clone() });
        Ok(
            Transcript {
                segments,
                text,
                engine: "whisper.cpp".to_owned(),
                model: self.model.clone(),
                duration_ms,
                source,
            },
        )
    }
}

/// The text of a run says all that its output says, and nothing else.
pub proof fn law_output_is_kept(s: Seq<char>)
    ensures
        said(whisper_text(s)) == said(s),
        trim(whisper_text(s)) == whisper_text(s),
{
    lemma_said_lines_joined(s);
    lemma_said_trim(join(nonempty(all_trimmed(lines(s))), " "@));
    law_trim_idempotent(join(nonempty(all_trimmed(lines(s))), " "@));
}

/// A message that speaks of the GPU, of Metal or of a buffer that could not be had blames
/// the GPU, wherever and in whatever case it does; a message with none of these does not.
pub proof fn law_gpu_is_blamed_in_any_case(a: Seq<char>, x: Seq<char>, b: Seq<char>)
    ensures
        eq_ignore_case(x, "gpu"@) || eq_ignore_case(x, "metal"@) || eq_ignore_case(
            x,
            "failed to allocate buffer"@,
        ) ==> blames_gpu(a + x + b),
        blames_gpu(a) ==> exists|i: int, n: int|
            0 <= i <= n <= a.len() && ({
                let y = #[trigger] a.subrange(i, n);
                eq_ignore_case(y, "gpu"@) || eq_ignore_case(y, "metal"@) || eq_ignore_case(
                    y,
                    "failed to allocate buffer"@,
                )
            }),
{
    reveal_strlit("gpu");
    reveal_strlit("metal");
    reveal_strlit("ggml_metal");
    reveal_strlit("failed to allocate buffer");
    assert(lower("gpu"@) =~= "gpu"@);
    assert(lower("metal"@) =~= "metal"@);
    assert(lower("failed to allocate buffer"@) =~= "failed to allocate buffer"@);
    let s = a + x + b;
    let i = a.len() as int;
    assert(lower(s).subrange(i, (i + x.len()) as int) =~= lower(x));
    assert(occurs_at(lower(s), lower(x), i));
    if blames_gpu(a) {
        let m = lower(a);
        let w = if contains(m, "gpu"@) {
            "gpu"@
        } else if contains(m, "metal"@) {
            "metal"@
        } else if contains(m, "failed to allocate buffer"@) {
            "failed to allocate buffer"@
        } else {
            "ggml_metal"@
        };
        let k = choose|k: int| occurs_at(m, w, k);
        if w == "ggml_metal"@ {
            assert(m.subrange(k + 5, k + 10) =~= "metal"@) by {
                assert forall|j: int| 0 <= j < 5 implies m[k + 5 + j] == "metal"@[j] by {
                    assert(m.subrange(k, k + 10)[5 + j] == w[5 + j]);
                }
            }
            assert(occurs_at(m, "metal"@, k + 5));
        } else {
            let y = a.subrange(k, (k + w.len()) as int);
            assert(lower(y) =~= m.subrange(k, (k + w.len()) as int));
            assert(eq_ignore_case(y, w));
        }
    }
}

/// A run is given the model, the sound and where to write its text, each behind its flag,
/// and leaves the GPU alone just where it is told to.
pub proof fn law_runs_are_given_their_files(
    model: Seq<char>,
    wav: Seq<char>,
    base: Seq<char>,
    no_gpu: bool,
)
    ensures
        ({
            let r = whisper_arguments(model, wav, base, no_gpu);
            &&& r.subrange(0, 4) == seq!["-m"@, model, "-f"@, wav]
            &&& r.subrange(r.len() - 3, r.len() as int) == seq!["-otxt"@, "-of"@, base]
            &&& no_gpu ==> r.len() == 8 && r[4] == "-ng"@
            &&& !no_gpu ==> r.len() == 7
        }),
{
    let r = whisper_arguments(model, wav, base, no_gpu);
    assert(r.subrange(0, 4) =~= seq!["-m"@, model, "-f"@, wav]);
    assert(r.subrange(r.len() - 3, r.len() as int) =~= seq!["-otxt"@, "-of"@, base]);
}

/// What follows a whisper.cpp run.
#[derive(Debug)]
pub enum WhisperStep {
    /// Its text is read.
    Accept,
    /// It is run once more without the GPU.
    RetryWithoutGpu,
    /// The transcription has failed.
    Fail(ComlinkError),
}

/// What follows the first run: only a failure that speaks of the GPU is retried.
pub fn after_first_run(success: bool, stderr: &[u8]) -> (r: WhisperStep)
    ensures
        if success {
            r is Accept
        } else if blames_gpu(lossy_text(stderr@)) {
            r is RetryWithoutGpu
        } else {
            r matches WhisperStep::Fail(ComlinkError::WhisperFailed(m)) && m@ == error_text(
                stderr@,
            )
        },
{
    if success {
        WhisperStep::Accept
    } else if should_retry_without_gpu(stderr) {
        WhisperStep::RetryWithoutGpu
    } else {
        WhisperStep::Fail(ComlinkError::WhisperFailed(trim_for_error(stderr)))
    }
}

/// What follows the run without the GPU: it is the last, and its failure reports
/// both.
pub fn after_retry(success: bool, first: &[u8], retry: &[u8]) -> (r: WhisperStep)
    ensures
        if success {
            r is Accept
        } else {
            r matches WhisperStep::Fail(ComlinkError::WhisperFailed(m)) && m@ == both_errors(
                first@,
                retry@,
            )
        },
{
    if success {
        WhisperStep::Accept
    } else {
        WhisperStep::Fail(ComlinkError::WhisperFailed(combine_whisper_errors(first, retry)))
    }
}

/// What a failed run said is told, without the white space round it, or that it said
/// nothing; two failed runs are both told.
pub proof fn law_failures_are_told(first: Seq<u8>, retry: Seq<u8>)
    ensures
        trim(lossy_text(first)).len() > 0 ==> error_text(first) == trim(lossy_text(first)),
        trim(lossy_text(first)).len() == 0 ==> error_text(first)
            == "process exited without an error message"@,
        contains(both_errors(first, retry), error_text(first)),
        contains(both_errors(first, retry), error_text(retry)),
{
    let none = Seq::<char>::empty();
    let a = "initial GPU attempt failed: "@;
    let b = "; CPU retry failed: "@;
    lemma_holds(a, error_text(first), b + error_text(retry));
    assert(both_errors(first, retry) =~= a + error_text(first) + (b + error_text(retry)));
    lemma_holds(a + error_text(first) + b, error_text(retry), none);
    assert(both_errors(first, retry) =~= a + error_text(first) + b + error_text(retry) + none);
}

} // verus!
