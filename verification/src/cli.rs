//! The commands: what they refuse, and what they print.
use vstd::prelude::*;

use crate::asr::SourceMetadata;
use crate::audio::{near_silent_warning, near_silent_warning_message, AudioLevel};
use crate::clipboard::CopyResult;
use crate::config::{
    parse_bool_value, word_value, Config, ConfigSetOutcome, LocalLlmConfig, ModelEntry,
    ResolvedConfig, RetentionConfig, SnippetEntry, StyleProfile, VocabularyEntry,
    MCP_ALLOW_START_ENV,
};
use crate::error::ComlinkError;
use crate::llm::LLM_CONTEXT_POLICY;
use crate::meet_audit::{MeetingAudioAudit, MeetingAudioScanError, UnretainedMeetingAudio};
use crate::meet_export::{or_not_retained, MeetingAudioLevel};
use crate::meet_recorders::{MeetRecorderHealth, MeetRecorderStatus};
use crate::meet_service::{MeetDetachedStatus, MeetStartStatus, MeetStopStatus};
use crate::meet_status::{McpPrivacy, MeetStatusReport};
use crate::meet::MeetingSourceStream;
use crate::numbers::{bool_text, bool_word, decimal, decimal_int, i64_text, u64_text, usize_text};
use crate::output::{
    field_line, push_field, source_audio, source_audio_text, step_names, ContextMetadata,
    TextProcessingResult, TranscriptOutput,
};
use crate::storage::{PruneResult, StoredSegment, StoredSession, StoredSessionSummary};
use crate::strings::{
    cat2, cat3, cat4, cat5, cat6, cat7, cat8, contains, copy_opt, ends_with, lemma_holds,
    lemma_holds_through, lemma_holds_within, lemma_pieces_stand, lemma_texts_push, lower, opt_text,
    replaced, starts_with, str_replace, str_trim_end, texts, trim, trim_end,
};
use crate::system_audio::SystemAudioReport;
use crate::text::{mode_exists, validate_mode, ModeDefinition, TextMode};

verus! {

/// The least length of a recording, in milliseconds.
pub const DEFAULT_MIN_RECORDING_MS: u64 = 300;

/// Whether a mode can be asked for.
pub fn validate_requested_mode(config: &Config, mode: &str) -> (r: Result<(), ComlinkError>)
    ensures
        if mode_exists(*config, mode@) {
            r is Ok
        } else {
            r matches Err(ComlinkError::ModeNotFound(name)) && name@ == mode@
        },
{
    validate_mode(config, mode)
}

/// Whether a recording is long enough to be transcribed.
pub fn check_recording_length(duration_ms: u64, min_duration_ms: u64) -> (r: Result<
    (),
    ComlinkError,
>)
    ensures
        r == if duration_ms < min_duration_ms {
            Err::<(), ComlinkError>(
                ComlinkError::RecordingTooShort { duration_ms, min_duration_ms },
            )
        } else {
            Ok(())
        },
{
    if duration_ms < min_duration_ms {
        return Err(ComlinkError::RecordingTooShort { duration_ms, min_duration_ms });
    }
    Ok(())
}

/// Adds the warning for a recording that is near-silent, after those that are there.
pub fn warn_of_silence(transcript: &mut TranscriptOutput, near_silent: &Option<AudioLevel>)
    ensures
        *final(transcript) == (TranscriptOutput {
            warnings: final(transcript).warnings,
            ..*old(transcript)
        }),
        texts(final(transcript).warnings@) == match near_silent {
            Some(level) => texts(old(transcript).warnings@).push(
                near_silent_warning(level.mean_dbfs@),
            ),
            None => texts(old(transcript).warnings@),
        },
{
    broadcast use lemma_texts_push;

    if let Some(level) = near_silent {
        transcript.warnings.push(near_silent_warning_message(&level.mean_dbfs));
    }
}

/// What is said of a text that was copied.
pub fn copy_notice(result: CopyResult) -> (r: &'static str)
    ensures
        r@ == if result.restored_previous {
            "Copied final text to clipboard, then restored previous clipboard."@
        } else {
            "Copied final text to clipboard."@
        },
{
    if result.restored_previous {
        "Copied final text to clipboard, then restored previous clipboard."
    } else {
        "Copied final text to clipboard."
    }
}

/// Whether the history may be pruned: just where all of it is meant.
pub fn check_prune(all: bool) -> (r: Result<(), ComlinkError>)
    ensures
        if all {
            r is Ok
        } else {
            r matches Err(ComlinkError::InvalidConfigValue { name, value }) && name@
                == "history prune"@ && value@ == "pass --all to prune all history"@
        },
{
    if !all {
        return Err(
            ComlinkError::InvalidConfigValue {
                name: "history prune",
                value: "pass --all to prune all history".to_owned(),
            },
        );
    }
    Ok(())
}

/// Whether a mode of the user's can be based on a mode: just on one that is built in.
pub fn check_deterministic_mode(name: String) -> (r: Result<String, ComlinkError>)
    ensures
        r == if TextMode::named(name@) is Some {
            Ok::<String, ComlinkError>(name)
        } else {
            Err(ComlinkError::ModeNotFound(name))
        },
{
    if TextMode::parse(&name).is_none() {
        return Err(ComlinkError::ModeNotFound(name));
    }
    Ok(name)
}

/// What a removal reports: that the entry was not there is an error.
pub fn check_removed(removed: bool, kind: &'static str, name: String) -> (r: Result<
    (),
    ComlinkError,
>)
    ensures
        r == if removed {
            Ok::<(), ComlinkError>(())
        } else {
            Err(ComlinkError::NotFound { kind, name })
        },
{
    if !removed {
        return Err(ComlinkError::NotFound { kind, name });
    }
    Ok(())
}

/// The body of a snippet: `\n` stands for a new line.
pub fn decode_cli_newlines(text: &str) -> (r: String)
    ensures
        r@ == replaced(text@, "\\n"@, "\n"@),
{
    proof {
        reveal_strlit("\\n");
    }
    assert("\\n"@.len() == 2);
    str_replace(text, "\\n", "\n")
}

/// A line: a label and a value.
pub open spec fn value_line(label: Seq<char>, value: Seq<char>) -> Seq<char> {
    label + value + "\n"@
}

/// Adds a line.
fn push_value(out: &mut String, label: &str, value: &str)
    ensures
        final(out)@ == old(out)@ + value_line(label@, value@),
{
    out.append(&cat3(label, value, "\n"));
}

/// A line where there is a value.
pub open spec fn value_line_if(label: Seq<char>, value: Option<Seq<char>>) -> Seq<char> {
    match value {
        Some(v) => value_line(label, v),
        None => Seq::empty(),
    }
}

/// Adds a line where there is a value.
fn push_value_if(out: &mut String, label: &str, value: &Option<String>)
    ensures
        final(out)@ == old(out)@ + value_line_if(label@, opt_text(*value)),
{
    match value {
        Some(v) => push_value(out, label, v),
        None => {
            assert(out@ + Seq::<char>::empty() =~= out@);
        },
    }
}

/// A line for each warning.
pub open spec fn warning_lines(w: Seq<Seq<char>>, head: Seq<char>) -> Seq<char>
    decreases w.len(),
{
    if w.len() == 0 {
        Seq::empty()
    } else {
        warning_lines(w.drop_last(), head) + value_line(head, w.last())
    }
}

/// A line for each warning.
fn list_warnings(warnings: &Vec<String>, head: &str) -> (r: String)
    ensures
        r@ == warning_lines(texts(warnings@), head@),
{
    let ghost w = texts(warnings@);
    let mut r = String::new();
    let mut i: usize = 0;
    assert(r@ =~= warning_lines(w.take(0), head@));
    while i < warnings.len()
        invariant
            i <= warnings@.len(),
            w == texts(warnings@),
            r@ == warning_lines(w.take(i as int), head@),
        decreases warnings@.len() - i,
    {
        assert(w.take(i + 1).drop_last() =~= w.take(i as int));
        push_value(&mut r, head, &warnings[i]);
        i += 1;
    }
    assert(w.take(w.len() as int) =~= w);
    r
}

/// The warnings of a stop between two rules, where there are any.
pub open spec fn banner(w: Seq<Seq<char>>) -> Seq<char> {
    if w.len() == 0 {
        Seq::empty()
    } else {
        "===================== WARNING =====================\n"@ + warning_lines(w, "- "@)
            + "==================================================\n"@
    }
}

/// The warnings of a stop between two rules, so that they are not overlooked.
pub fn stop_warning_banner(warnings: &Vec<String>) -> (r: String)
    ensures
        r@ == banner(texts(warnings@)),
{
    assert(texts(warnings@).len() == warnings@.len());
    if warnings.len() == 0 {
        return String::new();
    }
    cat3(
        "===================== WARNING =====================\n",
        &list_warnings(warnings, "- "),
        "==================================================\n",
    )
}

/// What is said after a configuration value was set, given the environment.
pub open spec fn set_notice_text(env: Option<Seq<char>>) -> Option<Seq<char>> {
    match env {
        None => None,
        Some(v) => if word_value(lower(trim(v))) is Some {
            Some(
                "note: "@ + MCP_ALLOW_START_ENV@ + "="@ + v
                    + " is set in the environment and takes precedence over the config file"@,
            )
        } else {
            Some(
                "warning: "@ + MCP_ALLOW_START_ENV@ + "="@ + v
                    + " is set in the environment but is not a boolean; every comlink command (and the MCP server) will fail to load config until it is fixed or unset"@,
            )
        },
    }
}

/// What is said after a configuration value was set: that the environment has another
/// one, or one that cannot be read.
pub fn set_notice(outcome: &ConfigSetOutcome) -> (r: Option<String>)
    ensures
        opt_text(r) == set_notice_text(opt_text(outcome.env_override)),
{
    match &outcome.env_override {
        None => None,
        Some(v) => match parse_bool_value(MCP_ALLOW_START_ENV, v) {
            Ok(_) => Some(
                cat5(
                    "note: ",
                    MCP_ALLOW_START_ENV,
                    "=",
                    v,
                    " is set in the environment and takes precedence over the config file",
                ),
            ),
            Err(_) => Some(
                cat5(
                    "warning: ",
                    MCP_ALLOW_START_ENV,
                    "=",
                    v,
                    " is set in the environment but is not a boolean; every comlink command (and the MCP server) will fail to load config until it is fixed or unset",
                ),
            ),
        },
    }
}

/// What is said of a configuration value that was set.
pub fn render_set(outcome: &ConfigSetOutcome) -> (r: String)
    ensures
        r@ == "set "@ + outcome.key@ + "="@ + bool_word(outcome.value) + " in "@
            + outcome.config_file@ + "\n"@,
{
    cat7("set ", outcome.key, "=", bool_text(outcome.value), " in ", &outcome.config_file, "\n")
}

/// How the language model deals with the user's data.
pub open spec fn llm_status(c: LocalLlmConfig) -> Seq<char> {
    if c.enabled {
        "enabled; provider="@ + c.provider.name() + "; endpoint="@ + c.endpoint@ + "; model="@ + (
        match c.model {
            Some(m) => m@,
            None => "<none>"@,
        }) + "; policy="@ + LLM_CONTEXT_POLICY@
    } else {
        "disabled; local LLM rewrite is opt-in"@
    }
}

/// How the language model deals with the user's data.
pub fn llm_privacy_status(config: &LocalLlmConfig) -> (r: String)
    ensures
        r@ == llm_status(*config),
{
    if !config.enabled {
        return "disabled; local LLM rewrite is opt-in".to_owned();
    }
    let model: &str = match &config.model {
        Some(m) => m.as_str(),
        None => "<none>",
    };
    cat8(
        "enabled; provider=",
        config.provider.as_str(),
        "; endpoint=",
        &config.endpoint,
        "; model=",
        model,
        "; policy=",
        LLM_CONTEXT_POLICY,
    )
}

/// A transcript of the history in a list.
pub open spec fn history_line(s: StoredSessionSummary) -> Seq<char> {
    s.id@ + " "@ + s.mode@ + " "@ + s.source_path@ + " "@ + decimal(s.duration_ms as nat)
        + "ms transcript="@ + bool_word(s.has_transcript) + " audio="@ + bool_word(s.has_audio)
        + "\n"@
}

/// The first `n` transcripts of the history.
pub open spec fn history_lines(s: Seq<StoredSessionSummary>, n: int) -> Seq<char>
    decreases n,
{
    if n <= 0 {
        Seq::empty()
    } else {
        history_lines(s, n - 1) + history_line(s[n - 1])
    }
}

/// The history.
pub fn render_history_list(sessions: &Vec<StoredSessionSummary>) -> (r: String)
    ensures
        r@ == history_lines(sessions@, sessions@.len() as int),
{
    let mut r = String::new();
    let mut i: usize = 0;
    while i < sessions.len()
        invariant
            i <= sessions@.len(),
            r@ == history_lines(sessions@, i as int),
        decreases sessions@.len() - i,
    {
        let s = &sessions[i];
        let mut line = cat8(
            &s.id,
            " ",
            &s.mode,
            " ",
            &s.source_path,
            " ",
            &u64_text(s.duration_ms),
            "ms transcript=",
        );
        line.append(bool_text(s.has_transcript));
        line.append(" audio=");
        line.append(bool_text(s.has_audio));
        line.append("\n");
        r.append(&line);
        i += 1;
    }
    r
}

/// A transcript of the history.
pub open spec fn history_text(s: StoredSession) -> Seq<char> {
    value_line("id: "@, s.id@) + value_line("created_at_ms: "@, decimal_int(s.created_at_ms as int))
        + value_line("mode: "@, s.mode@) + value_line("engine: "@, s.engine@) + value_line(
        "model: "@,
        s.model@,
    ) + value_line("source: "@, s.source.path@) + value_line(
        "duration_ms: "@,
        decimal(s.duration_ms as nat),
    ) + value_line("final_text: "@, or_not_retained(s.final_text))
}

/// A transcript of the history.
pub fn render_history_session(session: &StoredSession) -> (r: String)
    ensures
        r@ == history_text(*session),
{
    let mut r = String::new();
    push_value(&mut r, "id: ", &session.id);
    assert(r@ =~= value_line("id: "@, session.id@));
    push_value(&mut r, "created_at_ms: ", &i64_text(session.created_at_ms));
    push_value(&mut r, "mode: ", &session.mode);
    push_value(&mut r, "engine: ", &session.engine);
    push_value(&mut r, "model: ", &session.model);
    push_value(&mut r, "source: ", &session.source.path);
    push_value(&mut r, "duration_ms: ", &u64_text(session.duration_ms));
    match &session.final_text {
        Some(text) => push_value(&mut r, "final_text: ", text),
        None => push_value(&mut r, "final_text: ", "<not retained>"),
    }
    r
}

/// What was deleted from the history.
pub fn render_prune_result(result: &PruneResult) -> (r: String)
    ensures
        r@ == "deleted sessions="@ + decimal(result.sessions_deleted as nat) + ", segments="@
            + decimal(result.segments_deleted as nat) + ", audio_files="@ + decimal(
            result.audio_files_deleted as nat,
        ) + "\n"@,
{
    cat7(
        "deleted sessions=",
        &u64_text(result.sessions_deleted),
        ", segments=",
        &u64_text(result.segments_deleted),
        ", audio_files=",
        &u64_text(result.audio_files_deleted),
        "\n",
    )
}

/// The first `n` models.
pub open spec fn model_lines(m: Seq<ModelEntry>, n: int) -> Seq<char>
    decreases n,
{
    if n <= 0 {
        Seq::empty()
    } else {
        model_lines(m, n - 1) + ((if m[n - 1].selected {
            "* "@
        } else {
            "  "@
        }) + m[n - 1].name@ + " "@ + m[n - 1].path@ + "\n"@)
    }
}

/// The models, with the selected one marked.
pub fn render_models(models: &Vec<ModelEntry>) -> (r: String)
    ensures
        r@ == model_lines(models@, models@.len() as int),
{
    let mut r = String::new();
    let mut i: usize = 0;
    while i < models.len()
        invariant
            i <= models@.len(),
            r@ == model_lines(models@, i as int),
        decreases models@.len() - i,
    {
        let m = &models[i];
        let marker: &str = if m.selected {
            "* "
        } else {
            "  "
        };
        r.append(&cat5(marker, &m.name, " ", &m.path, "\n"));
        i += 1;
    }
    r
}

/// The first `n` modes.
pub open spec fn mode_lines(m: Seq<ModeDefinition>, n: int) -> Seq<char>
    decreases n,
{
    if n <= 0 {
        Seq::empty()
    } else {
        mode_lines(m, n - 1) + (m[n - 1].name@ + ": "@ + m[n - 1].description@ + "\n"@)
    }
}

/// The modes.
pub fn render_modes(modes: &Vec<ModeDefinition>) -> (r: String)
    ensures
        r@ == mode_lines(modes@, modes@.len() as int),
{
    let mut r = String::new();
    let mut i: usize = 0;
    while i < modes.len()
        invariant
            i <= modes@.len(),
            r@ == mode_lines(modes@, i as int),
        decreases modes@.len() - i,
    {
        r.append(&cat4(&modes[i].name, ": ", &modes[i].description, "\n"));
        i += 1;
    }
    r
}

/// The first `n` style profiles.
pub open spec fn profile_lines(p: Seq<StyleProfile>, n: int) -> Seq<char>
    decreases n,
{
    if n <= 0 {
        Seq::empty()
    } else {
        profile_lines(p, n - 1) + (p[n - 1].name@ + ": "@ + p[n - 1].summary@ + " ("@ + decimal(
            p[n - 1].examples@.len(),
        ) + " example(s))\n"@)
    }
}

/// The style profiles.
pub fn render_style_profiles(profiles: &Vec<StyleProfile>) -> (r: String)
    ensures
        r@ == profile_lines(profiles@, profiles@.len() as int),
{
    let mut r = String::new();
    let mut i: usize = 0;
    while i < profiles.len()
        invariant
            i <= profiles@.len(),
            r@ == profile_lines(profiles@, i as int),
        decreases profiles@.len() - i,
    {
        let p = &profiles[i];
        r.append(
            &cat6(
                &p.name,
                ": ",
                &p.summary,
                " (",
                &usize_text(p.examples.len()),
                " example(s))\n",
            ),
        );
        i += 1;
    }
    r
}

/// The first `n` replacements.
pub open spec fn vocabulary_lines(v: Seq<VocabularyEntry>, n: int) -> Seq<char>
    decreases n,
{
    if n <= 0 {
        Seq::empty()
    } else {
        vocabulary_lines(v, n - 1) + (v[n - 1].phrase@ + " -> "@ + v[n - 1].replacement@ + "\n"@)
    }
}

/// The vocabulary.
pub fn render_vocabulary(vocabulary: &Vec<VocabularyEntry>) -> (r: String)
    ensures
        r@ == vocabulary_lines(vocabulary@, vocabulary@.len() as int),
{
    let mut r = String::new();
    let mut i: usize = 0;
    while i < vocabulary.len()
        invariant
            i <= vocabulary@.len(),
            r@ == vocabulary_lines(vocabulary@, i as int),
        decreases vocabulary@.len() - i,
    {
        r.append(&cat4(&vocabulary[i].phrase, " -> ", &vocabulary[i].replacement, "\n"));
        i += 1;
    }
    r
}

/// The first `n` snippets, each on one line.
pub open spec fn snippet_lines(s: Seq<SnippetEntry>, n: int) -> Seq<char>
    decreases n,
{
    if n <= 0 {
        Seq::empty()
    } else {
        snippet_lines(s, n - 1) + (s[n - 1].trigger@ + " -> "@ + replaced(
            s[n - 1].body@,
            "\n"@,
            "\\n"@,
        ) + "\n"@)
    }
}

/// The snippets, each on one line.
pub fn render_snippets(snippets: &Vec<SnippetEntry>) -> (r: String)
    ensures
        r@ == snippet_lines(snippets@, snippets@.len() as int),
{
    proof {
        reveal_strlit("\n");
    }
    assert("\n"@.len() == 1);
    let mut r = String::new();
    let mut i: usize = 0;
    while i < snippets.len()
        invariant
            i <= snippets@.len(),
            "\n"@.len() == 1,
            r@ == snippet_lines(snippets@, i as int),
        decreases snippets@.len() - i,
    {
        let body = str_replace(&snippets[i].body, "\n", "\\n");
        r.append(&cat4(&snippets[i].trigger, " -> ", &body, "\n"));
        i += 1;
    }
    r
}

/// A text that was processed, as it is handed out.
#[derive(Debug, Clone)]
pub struct ProcessedTextOutput {
    pub raw_text: String,
    pub final_text: String,
    pub mode: String,
    pub processing_steps: Vec<String>,
}

/// A text that was processed, as it is handed out.
pub fn processed_text_output(raw_text: String, processed: TextProcessingResult) -> (r:
    ProcessedTextOutput)
    ensures
        r.raw_text == raw_text,
        r.final_text == processed.final_text,
        r.mode == processed.mode,
        texts(r.processing_steps@) == step_names(processed.processing_steps@),
{
    let ghost all = processed.processing_steps@;
    let mut steps: Vec<String> = Vec::new();
    for step in it: processed.processing_steps
        invariant
            it.seq() == all,
            texts(steps@) =~= step_names(all).take(it.index()),
    {
        broadcast use lemma_texts_push;

        assert(step_names(all)[it.index()] == step.name@);
        steps.push(step.name);
        assert(texts(steps@) =~= step_names(all).take(it.index() + 1));
    }
    assert(texts(steps@) =~= step_names(all));
    ProcessedTextOutput {
        raw_text,
        final_text: processed.final_text,
        mode: processed.mode,
        processing_steps: steps,
    }
}

/// A transcript of the history, as it is handed out.
#[derive(Debug)]
pub struct StoredSessionOutput {
    pub schema_version: String,
    pub session_id: String,
    pub created_at_ms: i64,
    pub text: Option<String>,
    pub raw_text: Option<String>,
    pub final_text: Option<String>,
    pub mode: String,
    pub copied: bool,
    pub engine: String,
    pub model: String,
    pub duration_ms: u64,
    pub segments: Vec<StoredSegment>,
    pub source: SourceMetadata,
    pub context: ContextMetadata,
    pub audio_path: Option<String>,
}

impl StoredSessionOutput {
    /// A transcript of the history, as it is handed out.
    pub fn from_session(session: StoredSession) -> (r: Self)
        ensures
            r.schema_version == session.schema_version,
            r.session_id == session.id,
            r.created_at_ms == session.created_at_ms,
            opt_text(r.text) == opt_text(session.final_text),
            r.raw_text == session.raw_text,
            r.final_text == session.final_text,
            r.mode == session.mode,
            r.copied == session.copied,
            r.engine == session.engine,
            r.model == session.model,
            r.duration_ms == session.duration_ms,
            r.segments == session.segments,
            r.source == session.source,
            r.context.policy@ == "none"@,
            r.context.items@.len() == 0,
            r.audio_path == session.audio_path,
    {
        StoredSessionOutput {
            schema_version: session.schema_version,
            session_id: session.id,
            created_at_ms: session.created_at_ms,
            text: copy_opt(&session.final_text),
            raw_text: session.raw_text,
            final_text: session.final_text,
            mode: session.mode,
            copied: session.copied,
            engine: session.engine,
            model: session.model,
            duration_ms: session.duration_ms,
            segments: session.segments,
            source: session.source,
            context: ContextMetadata::default(),
            audio_path: session.audio_path,
        }
    }
}

/// A list item for each of the first `n` stretches of speech.
pub open spec fn stored_items(s: Seq<StoredSegment>, n: int) -> Seq<char>
    decreases n,
{
    if n <= 0 {
        Seq::empty()
    } else {
        stored_items(s, n - 1) + ("- "@ + decimal((n - 1) as nat) + ": "@ + decimal(
            s[n - 1].start_ms as nat,
        ) + "-"@ + decimal(s[n - 1].end_ms as nat) + " ms: "@ + or_not_retained(s[n - 1].text)
            + "\n"@)
    }
}

/// The section that lists the speech, where there is any.
pub open spec fn stored_section(s: Seq<StoredSegment>) -> Seq<char> {
    if s.len() == 0 {
        Seq::empty()
    } else {
        "\n\n## Segments\n\n"@ + stored_items(s, s.len() as int)
    }
}

/// The section that lists the speech, where there is any.
fn stored_list(segments: &Vec<StoredSegment>) -> (r: String)
    ensures
        r@ == stored_section(segments@),
{
    if segments.len() == 0 {
        return String::new();
    }
    let mut items = String::new();
    let mut i: usize = 0;
    while i < segments.len()
        invariant
            i <= segments@.len(),
            items@ == stored_items(segments@, i as int),
        decreases segments@.len() - i,
    {
        let s = &segments[i];
        let text: &str = match &s.text {
            Some(text) => text.as_str(),
            None => "<not retained>",
        };
        let mut item = cat8(
            "- ",
            &usize_text(i),
            ": ",
            &u64_text(s.start_ms),
            "-",
            &u64_text(s.end_ms),
            " ms: ",
            text,
        );
        item.append("\n");
        items.append(&item);
        i += 1;
    }
    cat2("\n\n## Segments\n\n", &items)
}

/// A transcript of the history as a Markdown document.
pub open spec fn stored_markdown(s: StoredSessionOutput) -> Seq<char> {
    trim_end(
        "# Comlink Transcript\n\n## Metadata\n\n"@ + field_line("Schema"@, s.schema_version@)
            + field_line("Session"@, s.session_id@) + field_line(
            "Created"@,
            decimal_int(s.created_at_ms as int),
        ) + field_line("Mode"@, s.mode@) + field_line("Engine"@, s.engine@) + field_line(
            "Model"@,
            s.model@,
        ) + field_line("Duration"@, decimal(s.duration_ms as nat) + " ms"@) + field_line(
            "Source"@,
            s.source.path@,
        ) + field_line(
            "Source audio"@,
            source_audio_text(
                s.source.normalized_sample_rate_hz as nat,
                s.source.normalized_channels as nat,
            ),
        ) + field_line("Context policy"@, s.context.policy@) + "\n## Final Text\n\n"@
            + or_not_retained(s.final_text) + "\n\n## Raw Text\n\n"@ + or_not_retained(s.raw_text)
            + stored_section(s.segments@),
    )
}

/// A transcript of the history as a Markdown document.
pub fn render_stored_session_markdown(session: &StoredSessionOutput) -> (r: String)
    ensures
        r@ == stored_markdown(*session),
{
    let mut r = "# Comlink Transcript\n\n## Metadata\n\n".to_owned();
    push_field(&mut r, "Schema", &session.schema_version);
    push_field(&mut r, "Session", &session.session_id);
    push_field(&mut r, "Created", &i64_text(session.created_at_ms));
    push_field(&mut r, "Mode", &session.mode);
    push_field(&mut r, "Engine", &session.engine);
    push_field(&mut r, "Model", &session.model);
    push_field(&mut r, "Duration", &cat2(&u64_text(session.duration_ms), " ms"));
    push_field(&mut r, "Source", &session.source.path);
    push_field(
        &mut r,
        "Source audio",
        &source_audio(
            session.source.normalized_sample_rate_hz,
            session.source.normalized_channels,
        ),
    );
    push_field(&mut r, "Context policy", &session.context.policy);
    r.append("\n## Final Text\n\n");
    match &session.final_text {
        Some(text) => r.append(text),
        None => r.append("<not retained>"),
    }
    r.append("\n\n## Raw Text\n\n");
    match &session.raw_text {
        Some(text) => r.append(text),
        None => r.append("<not retained>"),
    }
    r.append(&stored_list(&session.segments));
    str_trim_end(&r)
}

/// What is told of the capture of system audio.
#[derive(Debug, Clone)]
pub struct PrivacySystemAudio {
    pub strategy: String,
    pub available: bool,
    pub status: String,
    pub device_name: Option<String>,
    pub microphone_permission: String,
    pub routing_permission: String,
    pub raw_audio_retained: bool,
}

/// What is kept, and who gets to see it.
#[derive(Debug, Clone)]
pub struct PrivacyAudit {
    pub history_enabled: bool,
    pub retention: RetentionConfig,
    pub config_file: String,
    pub database_file: String,
    pub selected_model: Option<String>,
    pub selected_model_exists: bool,
    pub asr: String,
    pub llm: String,
    pub system_audio: PrivacySystemAudio,
    pub meeting_audio: MeetingAudioAudit,
    pub mcp: McpPrivacy,
}

/// What is kept, and who gets to see it. The device for system audio is told just
/// where metadata is kept.
pub fn privacy_audit(
    resolved: &ResolvedConfig,
    selected_model: Option<String>,
    selected_model_exists: bool,
    report: SystemAudioReport,
    meeting_audio: MeetingAudioAudit,
    mcp: McpPrivacy,
) -> (r: PrivacyAudit)
    ensures
        r.history_enabled == resolved.config.history_enabled,
        r.retention == resolved.config.retention,
        r.config_file@ == resolved.paths.config_file@,
        r.database_file@ == resolved.paths.database_file@,
        r.selected_model == selected_model,
        r.selected_model_exists == (selected_model is Some && selected_model_exists),
        r.asr@ == "local whisper.cpp"@,
        r.llm@ == llm_status(resolved.config.llm),
        r.system_audio.strategy == report.strategy,
        r.system_audio.available == report.available,
        r.system_audio.status == report.status,
        r.system_audio.device_name == if resolved.config.retention.metadata {
            report.dependency.device_name
        } else {
            None
        },
        r.system_audio.microphone_permission == report.permissions.microphone.detail,
        r.system_audio.routing_permission == report.permissions.system_audio_routing.detail,
        r.system_audio.raw_audio_retained == resolved.config.retention.audio,
        r.meeting_audio == meeting_audio,
        r.mcp == mcp,
{
    let exists_known = selected_model.is_some() && selected_model_exists;
    PrivacyAudit {
        history_enabled: resolved.config.history_enabled,
        retention: resolved.config.retention.clone(),
        config_file: resolved.paths.config_file.clone(),
        database_file: resolved.paths.database_file.clone(),
        selected_model,
        selected_model_exists: exists_known,
        asr: "local whisper.cpp".to_owned(),
        llm: llm_privacy_status(&resolved.config.llm),
        system_audio: PrivacySystemAudio {
            strategy: report.strategy,
            available: report.available,
            status: report.status,
            device_name: if resolved.config.retention.metadata {
                report.dependency.device_name
            } else {
                None
            },
            microphone_permission: report.permissions.microphone.detail,
            routing_permission: report.permissions.system_audio_routing.detail,
            raw_audio_retained: resolved.config.retention.audio,
        },
        meeting_audio,
        mcp,
    }
}

/// What is kept, in words.
pub open spec fn retention_text(metadata: bool, transcripts: bool, audio: bool) -> Seq<char> {
    "metadata="@ + bool_word(metadata) + ", transcripts="@ + bool_word(transcripts) + ", audio="@
        + bool_word(audio)
}

/// What is kept, in words.
fn render_retention(metadata: bool, transcripts: bool, audio: bool) -> (r: String)
    ensures
        r@ == retention_text(metadata, transcripts, audio),
{
    cat6(
        "metadata=",
        bool_text(metadata),
        ", transcripts=",
        bool_text(transcripts),
        ", audio=",
        bool_text(audio),
    )
}

/// The first `n` sessions with audio that is not to be kept.
pub open spec fn leftover_lines(l: Seq<UnretainedMeetingAudio>, n: int) -> Seq<char>
    decreases n,
{
    if n <= 0 {
        Seq::empty()
    } else {
        let a = l[n - 1];
        leftover_lines(l, n - 1) + ("meeting_audio_leftover: session="@ + a.session_id@
            + " status="@ + a.status@ + " chunk_files="@ + decimal(a.chunk_files as nat)
            + " chunks_dir="@ + a.chunks_dir@ + " remedy=`"@ + a.remedy@ + "` reason="@ + a.reason@
            + "\n"@)
    }
}

/// The first `n` errors of the search.
pub open spec fn scan_error_lines(e: Seq<MeetingAudioScanError>, n: int) -> Seq<char>
    decreases n,
{
    if n <= 0 {
        Seq::empty()
    } else {
        scan_error_lines(e, n - 1) + ("meeting_audio_scan_error: path="@ + e[n - 1].path@
            + " reason="@ + e[n - 1].reason@ + "\n"@)
    }
}

/// The sessions with audio that is not to be kept.
fn leftover_list(leftovers: &Vec<UnretainedMeetingAudio>) -> (r: String)
    ensures
        r@ == leftover_lines(leftovers@, leftovers@.len() as int),
{
    let mut r = String::new();
    let mut i: usize = 0;
    while i < leftovers.len()
        invariant
            i <= leftovers@.len(),
            r@ == leftover_lines(leftovers@, i as int),
        decreases leftovers@.len() - i,
    {
        let a = &leftovers[i];
        let mut line = cat8(
            "meeting_audio_leftover: session=",
            &a.session_id,
            " status=",
            a.status,
            " chunk_files=",
            &usize_text(a.chunk_files),
            " chunks_dir=",
            &a.chunks_dir,
        );
        line.append(" remedy=`");
        line.append(&a.remedy);
        line.append("` reason=");
        line.append(&a.reason);
        line.append("\n");
        r.append(&line);
        i += 1;
    }
    r
}

/// The errors of the search.
fn scan_error_list(errors: &Vec<MeetingAudioScanError>) -> (r: String)
    ensures
        r@ == scan_error_lines(errors@, errors@.len() as int),
{
    let mut r = String::new();
    let mut i: usize = 0;
    while i < errors.len()
        invariant
            i <= errors@.len(),
            r@ == scan_error_lines(errors@, i as int),
        decreases errors@.len() - i,
    {
        r.append(
            &cat5(
                "meeting_audio_scan_error: path=",
                &errors[i].path,
                " reason=",
                &errors[i].reason,
                "\n",
            ),
        );
        i += 1;
    }
    r
}

/// A value, or a placeholder where there is none.
pub open spec fn or_none(o: Option<String>) -> Seq<char> {
    match o {
        Some(s) => s@,
        None => "<none>"@,
    }
}

/// A value, or a placeholder where there is none.
fn value_or_none(o: &Option<String>) -> (r: &str)
    ensures
        r@ == or_none(*o),
{
    match o {
        Some(s) => s.as_str(),
        None => "<none>",
    }
}

/// What is kept, and who gets to see it, in words: what the configuration says.
pub open spec fn audit_config_text(a: PrivacyAudit) -> Seq<char> {
    value_line("history_enabled: "@, bool_word(a.history_enabled)) + value_line(
        "retention: "@,
        retention_text(a.retention.metadata, a.retention.transcripts, a.retention.audio),
    ) + value_line("config_file: "@, a.config_file@) + value_line(
        "database_file: "@,
        a.database_file@,
    ) + value_line("selected_model: "@, or_none(a.selected_model)) + value_line(
        "selected_model_exists: "@,
        bool_word(a.selected_model_exists),
    ) + value_line("asr: "@, a.asr@) + value_line("llm: "@, a.llm@)
}

/// What is kept, and who gets to see it, in words: what becomes of audio.
pub open spec fn audit_audio_text(a: PrivacyAudit) -> Seq<char> {
    let s = a.system_audio;
    value_line(
        "system_audio: "@,
        "strategy="@ + s.strategy@ + " available="@ + bool_word(s.available) + " status="@
            + s.status@ + " device="@ + or_none(s.device_name) + " raw_audio_retained="@
            + bool_word(s.raw_audio_retained),
    ) + value_line("system_audio_microphone_permission: "@, s.microphone_permission@) + value_line(
        "system_audio_routing_permission: "@,
        s.routing_permission@,
    ) + value_line(
        "meeting_audio: "@,
        "clean="@ + bool_word(a.meeting_audio.clean) + " unretained_leftovers="@ + decimal(
            a.meeting_audio.unretained_leftovers@.len(),
        ) + " scan_errors="@ + decimal(a.meeting_audio.scan_errors@.len()),
    ) + leftover_lines(
        a.meeting_audio.unretained_leftovers@,
        a.meeting_audio.unretained_leftovers@.len() as int,
    ) + scan_error_lines(
        a.meeting_audio.scan_errors@,
        a.meeting_audio.scan_errors@.len() as int,
    ) + value_line(
        "mcp: "@,
        "transport="@ + a.mcp.transport@ + " network_listener="@ + bool_word(
            a.mcp.network_listener,
        ) + " allow_start="@ + bool_word(a.mcp.allow_start)
            + " transcripts_sent_to_calling_model="@ + bool_word(
            a.mcp.transcripts_sent_to_calling_model,
        ),
    )
}

/// What the configuration says.
fn render_audit_config(audit: &PrivacyAudit) -> (r: String)
    ensures
        r@ == audit_config_text(*audit),
{
    let mut r = String::new();
    push_value(&mut r, "history_enabled: ", bool_text(audit.history_enabled));
    assert(r@ =~= value_line("history_enabled: "@, bool_word(audit.history_enabled)));
    push_value(
        &mut r,
        "retention: ",
        &render_retention(
            audit.retention.metadata,
            audit.retention.transcripts,
            audit.retention.audio,
        ),
    );
    push_value(&mut r, "config_file: ", &audit.config_file);
    push_value(&mut r, "database_file: ", &audit.database_file);
    push_value(&mut r, "selected_model: ", value_or_none(&audit.selected_model));
    push_value(&mut r, "selected_model_exists: ", bool_text(audit.selected_model_exists));
    push_value(&mut r, "asr: ", &audit.asr);
    push_value(&mut r, "llm: ", &audit.llm);
    r
}

/// What becomes of audio.
fn render_audit_audio(audit: &PrivacyAudit) -> (r: String)
    ensures
        r@ == audit_audio_text(*audit),
{
    let s = &audit.system_audio;
    let mut system = cat8(
        "strategy=",
        &s.strategy,
        " available=",
        bool_text(s.available),
        " status=",
        &s.status,
        " device=",
        value_or_none(&s.device_name),
    );
    system.append(" raw_audio_retained=");
    system.append(bool_text(s.raw_audio_retained));
    let mut r = String::new();
    push_value(&mut r, "system_audio: ", &system);
    assert(r@ =~= value_line("system_audio: "@, system@));
    push_value(&mut r, "system_audio_microphone_permission: ", &s.microphone_permission);
    push_value(&mut r, "system_audio_routing_permission: ", &s.routing_permission);
    let m = &audit.meeting_audio;
    push_value(
        &mut r,
        "meeting_audio: ",
        &cat6(
            "clean=",
            bool_text(m.clean),
            " unretained_leftovers=",
            &usize_text(m.unretained_leftovers.len()),
            " scan_errors=",
            &usize_text(m.scan_errors.len()),
        ),
    );
    r.append(&leftover_list(&m.unretained_leftovers));
    r.append(&scan_error_list(&m.scan_errors));
    push_value(
        &mut r,
        "mcp: ",
        &cat8(
            "transport=",
            audit.mcp.transport,
            " network_listener=",
            bool_text(audit.mcp.network_listener),
            " allow_start=",
            bool_text(audit.mcp.allow_start),
            " transcripts_sent_to_calling_model=",
            bool_text(audit.mcp.transcripts_sent_to_calling_model),
        ),
    );
    r
}

/// What is kept, and who gets to see it, in words.
pub fn render_privacy_audit(audit: &PrivacyAudit) -> (r: String)
    ensures
        r@ == audit_config_text(*audit) + audit_audio_text(*audit),
{
    cat2(&render_audit_config(audit), &render_audit_audio(audit))
}

/// The first `n` recorders of a start.
pub open spec fn recorder_lines(s: Seq<MeetRecorderStatus>, n: int) -> Seq<char>
    decreases n,
{
    if n <= 0 {
        Seq::empty()
    } else {
        let a = s[n - 1];
        recorder_lines(s, n - 1) + ("recorder: source="@ + a.source_label.name() + " pid="@
            + decimal(a.pid as nat) + " device="@ + a.device@ + " chunks_dir="@ + a.chunks_dir@
            + " stderr="@ + a.stderr_path@ + "\n"@)
    }
}

/// The recorders of a start.
fn recorder_list(recorders: &Vec<MeetRecorderStatus>) -> (r: String)
    ensures
        r@ == recorder_lines(recorders@, recorders@.len() as int),
{
    let mut r = String::new();
    let mut i: usize = 0;
    while i < recorders.len()
        invariant
            i <= recorders@.len(),
            r@ == recorder_lines(recorders@, i as int),
        decreases recorders@.len() - i,
    {
        let a = &recorders[i];
        let mut line = cat8(
            "recorder: source=",
            a.source_label.as_str(),
            " pid=",
            &u64_text(a.pid as u64),
            " device=",
            &a.device,
            " chunks_dir=",
            &a.chunks_dir,
        );
        line.append(" stderr=");
        line.append(&a.stderr_path);
        line.append("\n");
        r.append(&line);
        i += 1;
    }
    r
}

/// Whether a meeting stops by itself, in words.
pub open spec fn auto_stop_text(enabled: bool, reason: Seq<char>) -> Seq<char> {
    "enabled="@ + bool_word(enabled) + " ("@ + reason + ")"@
}

/// Whether a meeting stops by itself, in words.
fn render_auto_stop(enabled: bool, reason: &str) -> (r: String)
    ensures
        r@ == auto_stop_text(enabled, reason@),
{
    cat5("enabled=", bool_text(enabled), " (", reason, ")")
}

/// What a start reports, in words.
pub open spec fn start_text(s: MeetStartStatus) -> Seq<char> {
    value_line("session_id: "@, s.session_id@) + value_line("status: "@, s.status@) + value_line(
        "elapsed_ms: "@,
        decimal(s.elapsed_ms as nat),
    ) + value_line("recorder_pid: "@, decimal(s.recorder_pid as nat)) + value_line(
        "source_mode: "@,
        s.source.mode.name(),
    ) + recorder_lines(s.recorders@, s.recorders@.len() as int) + value_line(
        "session_dir: "@,
        s.session_dir@,
    ) + value_line("chunks_dir: "@, s.chunks_dir@) + value_line(
        "segments_jsonl: "@,
        s.segments_jsonl@,
    ) + value_line("json_export: "@, s.json_export@) + value_line(
        "markdown_export: "@,
        s.markdown_export@,
    ) + value_line(
        "inactivity_auto_stop: "@,
        auto_stop_text(s.inactivity_auto_stop.enabled, s.inactivity_auto_stop.reason@),
    ) + value_line(""@, s.consent_reminder@)
}

/// What a start reports, in words.
pub fn render_meet_start(status: &MeetStartStatus) -> (r: String)
    ensures
        r@ == start_text(*status),
{
    let mut r = String::new();
    push_value(&mut r, "session_id: ", &status.session_id);
    assert(r@ =~= value_line("session_id: "@, status.session_id@));
    push_value(&mut r, "status: ", status.status);
    push_value(&mut r, "elapsed_ms: ", &u64_text(status.elapsed_ms));
    push_value(&mut r, "recorder_pid: ", &u64_text(status.recorder_pid as u64));
    push_value(&mut r, "source_mode: ", status.source.mode.as_str());
    r.append(&recorder_list(&status.recorders));
    push_value(&mut r, "session_dir: ", &status.session_dir);
    push_value(&mut r, "chunks_dir: ", &status.chunks_dir);
    push_value(&mut r, "segments_jsonl: ", &status.segments_jsonl);
    push_value(&mut r, "json_export: ", &status.json_export);
    push_value(&mut r, "markdown_export: ", &status.markdown_export);
    push_value(
        &mut r,
        "inactivity_auto_stop: ",
        &render_auto_stop(
            status.inactivity_auto_stop.enabled,
            &status.inactivity_auto_stop.reason,
        ),
    );
    push_value(&mut r, "", status.consent_reminder);
    r
}

/// The first `n` streams of a stop.
pub open spec fn source_lines(s: Seq<MeetingSourceStream>, n: int) -> Seq<char>
    decreases n,
{
    if n <= 0 {
        Seq::empty()
    } else {
        source_lines(s, n - 1) + ("source_stream: "@ + s[n - 1].label.name() + " "@
            + s[n - 1].device@ + "\n"@)
    }
}

/// The streams of a stop.
fn source_list(streams: &Vec<MeetingSourceStream>) -> (r: String)
    ensures
        r@ == source_lines(streams@, streams@.len() as int),
{
    let mut r = String::new();
    let mut i: usize = 0;
    while i < streams.len()
        invariant
            i <= streams@.len(),
            r@ == source_lines(streams@, i as int),
        decreases streams@.len() - i,
    {
        r.append(
            &cat5(
                "source_stream: ",
                streams[i].label.as_str(),
                " ",
                &streams[i].device,
                "\n",
            ),
        );
        i += 1;
    }
    r
}

/// The level of a meeting's audio, in words.
pub open spec fn level_text(level: Option<MeetingAudioLevel>) -> Option<Seq<char>> {
    match level {
        Some(l) => Some(
            "mean="@ + l.mean_dbfs@ + " dBFS, peak="@ + l.peak_dbfs@ + " dBFS, near_silent="@
                + bool_word(l.near_silent),
        ),
        None => None,
    }
}

/// The level of a meeting's audio, in words.
fn render_level(level: &Option<MeetingAudioLevel>) -> (r: Option<String>)
    ensures
        opt_text(r) == level_text(*level),
{
    match level {
        Some(l) => Some(
            cat6(
                "mean=",
                &l.mean_dbfs,
                " dBFS, peak=",
                &l.peak_dbfs,
                " dBFS, near_silent=",
                bool_text(l.near_silent),
            ),
        ),
        None => None,
    }
}

/// What a stop reports, in words.
pub open spec fn stop_text(s: MeetStopStatus) -> Seq<char> {
    value_line("session_id: "@, s.session_id@) + value_line("status: "@, s.status@) + value_line(
        "elapsed_ms: "@,
        decimal(s.elapsed_ms as nat),
    ) + value_line("duration_ms: "@, decimal(s.duration_ms as nat)) + value_line(
        "chunks_processed: "@,
        decimal(s.chunks_processed as nat),
    ) + value_line("segment_count: "@, decimal(s.segment_count as nat)) + value_line(
        "source_mode: "@,
        s.source.mode.name(),
    ) + source_lines(s.source.streams@, s.source.streams@.len() as int) + value_line(
        "segments_jsonl: "@,
        s.artifacts.segments_jsonl@,
    ) + value_line("json_export: "@, s.artifacts.json_export@) + value_line(
        "markdown_export: "@,
        s.artifacts.markdown_export@,
    ) + value_line(
        "retention: "@,
        retention_text(s.retention.metadata, s.retention.transcripts, s.retention.audio),
    ) + value_line(
        "segmenting: "@,
        s.segmenting.strategy@ + " vad_available="@ + bool_word(s.segmenting.vad_available),
    ) + value_line_if("audio_level: "@, level_text(s.audio_level)) + value_line(
        "inactivity_auto_stop: "@,
        auto_stop_text(s.inactivity_auto_stop.enabled, s.inactivity_auto_stop.reason@),
    ) + warning_lines(texts(s.warnings@), "warning: "@)
}

/// What a stop reports, in words.
pub fn render_meet_stop(status: &MeetStopStatus) -> (r: String)
    ensures
        r@ == stop_text(*status),
{
    let mut r = String::new();
    push_value(&mut r, "session_id: ", &status.session_id);
    assert(r@ =~= value_line("session_id: "@, status.session_id@));
    push_value(&mut r, "status: ", status.status);
    push_value(&mut r, "elapsed_ms: ", &u64_text(status.elapsed_ms));
    push_value(&mut r, "duration_ms: ", &u64_text(status.duration_ms));
    push_value(&mut r, "chunks_processed: ", &usize_text(status.chunks_processed));
    push_value(&mut r, "segment_count: ", &usize_text(status.segment_count));
    push_value(&mut r, "source_mode: ", status.source.mode.as_str());
    r.append(&source_list(&status.source.streams));
    push_value(&mut r, "segments_jsonl: ", &status.artifacts.segments_jsonl);
    push_value(&mut r, "json_export: ", &status.artifacts.json_export);
    push_value(&mut r, "markdown_export: ", &status.artifacts.markdown_export);
    push_value(
        &mut r,
        "retention: ",
        &render_retention(
            status.retention.metadata,
            status.retention.transcripts,
            status.retention.audio,
        ),
    );
    push_value(
        &mut r,
        "segmenting: ",
        &cat3(
            &status.segmenting.strategy,
            " vad_available=",
            bool_text(status.segmenting.vad_available),
        ),
    );
    push_value_if(&mut r, "audio_level: ", &render_level(&status.audio_level));
    push_value(
        &mut r,
        "inactivity_auto_stop: ",
        &render_auto_stop(
            status.inactivity_auto_stop.enabled,
            &status.inactivity_auto_stop.reason,
        ),
    );
    r.append(&list_warnings(&status.warnings, "warning: "));
    r
}

/// What a detached stop reports, in words.
pub open spec fn detached_text(s: MeetDetachedStatus) -> Seq<char> {
    value_line("session_id: "@, s.session_id@) + value_line("status: "@, s.status@) + value_line(
        "elapsed_ms: "@,
        decimal(s.elapsed_ms as nat),
    ) + value_line("preliminary_duration_ms: "@, decimal(s.preliminary_duration_ms as nat))
        + value_line("chunk_count: "@, decimal(s.chunk_count as nat)) + value_line(
        "finalizer_pid: "@,
        decimal(s.finalizer_pid as nat),
    ) + value_line("finalize_log: "@, s.finalize_log@) + value_line(
        "segments_jsonl: "@,
        s.artifacts.segments_jsonl@,
    ) + value_line("json_export: "@, s.artifacts.json_export@) + value_line(
        "markdown_export: "@,
        s.artifacts.markdown_export@,
    )
}

/// What a detached stop reports, in words.
pub fn render_meet_detached(status: &MeetDetachedStatus) -> (r: String)
    ensures
        r@ == detached_text(*status),
{
    let mut r = String::new();
    push_value(&mut r, "session_id: ", &status.session_id);
    assert(r@ =~= value_line("session_id: "@, status.session_id@));
    push_value(&mut r, "status: ", status.status);
    push_value(&mut r, "elapsed_ms: ", &u64_text(status.elapsed_ms));
    push_value(&mut r, "preliminary_duration_ms: ", &u64_text(status.preliminary_duration_ms));
    push_value(&mut r, "chunk_count: ", &usize_text(status.chunk_count));
    push_value(&mut r, "finalizer_pid: ", &u64_text(status.finalizer_pid as u64));
    push_value(&mut r, "finalize_log: ", &status.finalize_log);
    push_value(&mut r, "segments_jsonl: ", &status.artifacts.segments_jsonl);
    push_value(&mut r, "json_export: ", &status.artifacts.json_export);
    push_value(&mut r, "markdown_export: ", &status.artifacts.markdown_export);
    r
}

/// What is said once a finalizer runs.
pub fn detached_notice(status: &MeetDetachedStatus) -> (r: String)
    ensures
        r@ == "Transcribing in the background (finalizer pid "@ + decimal(
            status.finalizer_pid as nat,
        ) + "); check progress with `comlink meet status "@ + status.session_id@ + "`."@,
{
    cat5(
        "Transcribing in the background (finalizer pid ",
        &u64_text(status.finalizer_pid as u64),
        "); check progress with `comlink meet status ",
        &status.session_id,
        "`.",
    )
}

/// The first `n` recorders of a report.
pub open spec fn health_lines(h: Seq<MeetRecorderHealth>, n: int) -> Seq<char>
    decreases n,
{
    if n <= 0 {
        Seq::empty()
    } else {
        let a = h[n - 1];
        health_lines(h, n - 1) + ("recorder: source="@ + a.source_label.name() + " pid="@ + (
        match a.pid {
            Some(pid) => decimal(pid as nat),
            None => "<none>"@,
        }) + " alive="@ + bool_word(a.alive) + " device="@ + a.device@ + "\n"@)
    }
}

/// The recorders of a report.
fn health_list(recorders: &Vec<MeetRecorderHealth>) -> (r: String)
    ensures
        r@ == health_lines(recorders@, recorders@.len() as int),
{
    let mut r = String::new();
    let mut i: usize = 0;
    while i < recorders.len()
        invariant
            i <= recorders@.len(),
            r@ == health_lines(recorders@, i as int),
        decreases recorders@.len() - i,
    {
        let a = &recorders[i];
        let pid = match a.pid {
            Some(pid) => u64_text(pid as u64),
            None => "<none>".to_owned(),
        };
        let mut line = cat8(
            "recorder: source=",
            a.source_label.as_str(),
            " pid=",
            &pid,
            " alive=",
            bool_text(a.alive),
            " device=",
            &a.device,
        );
        line.append("\n");
        r.append(&line);
        i += 1;
    }
    r
}

/// The time that a report tells, if any.
pub open spec fn elapsed_text(r: MeetStatusReport) -> Option<Seq<char>> {
    match r.elapsed_ms {
        Some(ms) => Some(decimal(ms as nat)),
        None => None,
    }
}

/// The finalizer that a report tells of, if any.
pub open spec fn finalizer_text(r: MeetStatusReport) -> Option<Seq<char>> {
    match r.finalizer {
        Some(f) => Some("pid="@ + decimal(f.pid as nat) + " alive="@ + bool_word(f.alive)),
        None => None,
    }
}

/// The number of chunks that a report tells, where there is a session.
pub open spec fn chunk_count_text(r: MeetStatusReport) -> Option<Seq<char>> {
    if r.session_id is Some {
        Some(decimal(r.chunk_count as nat))
    } else {
        None
    }
}

/// A report, in words.
pub open spec fn status_text(r: MeetStatusReport) -> Seq<char> {
    value_line("session_id: "@, or_none(r.session_id)) + value_line("status: "@, r.status@)
        + value_line_if("elapsed_ms: "@, elapsed_text(r)) + health_lines(
        r.recorders@,
        r.recorders@.len() as int,
    ) + value_line_if("finalizer: "@, finalizer_text(r)) + value_line_if(
        "chunk_count: "@,
        chunk_count_text(r),
    ) + value_line_if("audio_level: "@, level_text(r.audio_level)) + value_line(
        "stale: "@,
        bool_word(r.stale),
    ) + value_line_if("error: "@, opt_text(r.error)) + value_line_if(
        "finalize_log: "@,
        opt_text(r.finalize_log),
    ) + warning_lines(texts(r.warnings@), "warning: "@)
}

/// A report, in words.
pub fn render_meet_status(report: &MeetStatusReport) -> (r: String)
    ensures
        r@ == status_text(*report),
{
    let elapsed = match report.elapsed_ms {
        Some(ms) => Some(u64_text(ms)),
        None => None,
    };
    let finalizer = match &report.finalizer {
        Some(f) => Some(cat4("pid=", &u64_text(f.pid as u64), " alive=", bool_text(f.alive))),
        None => None,
    };
    let chunk_count = if report.session_id.is_some() {
        Some(usize_text(report.chunk_count))
    } else {
        None
    };
    let mut r = String::new();
    push_value(&mut r, "session_id: ", value_or_none(&report.session_id));
    assert(r@ =~= value_line("session_id: "@, or_none(report.session_id)));
    push_value(&mut r, "status: ", report.status);
    push_value_if(&mut r, "elapsed_ms: ", &elapsed);
    r.append(&health_list(&report.recorders));
    push_value_if(&mut r, "finalizer: ", &finalizer);
    push_value_if(&mut r, "chunk_count: ", &chunk_count);
    push_value_if(&mut r, "audio_level: ", &render_level(&report.audio_level));
    push_value(&mut r, "stale: ", bool_text(report.stale));
    push_value_if(&mut r, "error: ", &report.error);
    push_value_if(&mut r, "finalize_log: ", &report.finalize_log);
    r.append(&list_warnings(&report.warnings, "warning: "));
    r
}

/// A list of the history holds a line for each transcript, with its id, its mode, its
/// source and its length.
pub proof fn law_history_lists_every_transcript(s: Seq<StoredSessionSummary>, k: int)
    requires
        0 <= k < s.len(),
    ensures
        contains(
            history_lines(s, s.len() as int),
            s[k].id@ + " "@ + s[k].mode@ + " "@ + s[k].source_path@ + " "@ + decimal(
                s[k].duration_ms as nat,
            ) + "ms"@,
        ),
{
    let n = s.len() as int;
    lemma_history_line(s, k);
    lemma_history_line_start(s[k]);
    lemma_holds_through(
        history_lines(s, n),
        history_line(s[k]),
        s[k].id@ + " "@ + s[k].mode@ + " "@ + s[k].source_path@ + " "@ + decimal(
            s[k].duration_ms as nat,
        ) + "ms"@,
    );
}

/// Each transcript of the history has its line.
proof fn lemma_history_line(s: Seq<StoredSessionSummary>, k: int)
    requires
        0 <= k < s.len(),
    ensures
        contains(history_lines(s, s.len() as int), history_line(s[k])),
{
    let text = |n: int| history_lines(s, n);
    let piece = |j: int| history_line(s[j]);
    let n = s.len() as int;
    assert forall|m: int| 0 < m <= n implies #[trigger] text(m) == text(m - 1) + piece(m - 1) by {}
    lemma_pieces_stand(text, piece, n, k);
    assert(text(n) == history_lines(s, n) && piece(k) == history_line(s[k]));
}

/// The line of a transcript starts with its id, mode, source and length.
proof fn lemma_history_line_start(s: StoredSessionSummary)
    ensures
        contains(
            history_line(s),
            s.id@ + " "@ + s.mode@ + " "@ + s.source_path@ + " "@ + decimal(s.duration_ms as nat)
                + "ms"@,
        ),
{
    let x = s.id@ + " "@ + s.mode@ + " "@ + s.source_path@ + " "@ + decimal(s.duration_ms as nat)
        + "ms"@;
    reveal_strlit("ms transcript=");
    reveal_strlit(" transcript=");
    reveal_strlit("ms");
    assert("ms transcript="@ =~= "ms"@ + " transcript="@);
    let l = history_line(s);
    let rest = l.skip(x.len() as int);
    let none = Seq::<char>::empty();
    lemma_holds(none, x, rest);
    assert(l.take(x.len() as int) =~= x);
    assert(l =~= none + x + rest);
}

/// A list of models holds a line for each, marked where it is the selected one.
pub proof fn law_models_are_listed(m: Seq<ModelEntry>, k: int)
    requires
        0 <= k < m.len(),
    ensures
        contains(
            model_lines(m, m.len() as int),
            (if m[k].selected {
                "* "@
            } else {
                "  "@
            }) + m[k].name@ + " "@ + m[k].path@ + "\n"@,
        ),
{
    let text = |n: int| model_lines(m, n);
    let piece = |j: int|
        (if m[j].selected {
            "* "@
        } else {
            "  "@
        }) + m[j].name@ + " "@ + m[j].path@ + "\n"@;
    let n = m.len() as int;
    assert forall|i: int| 0 < i <= n implies #[trigger] text(i) == text(i - 1) + piece(i - 1) by {}
    lemma_pieces_stand(text, piece, n, k);
    assert(text(n) == model_lines(m, n));
}

/// Lists of modes, of style profiles, of the vocabulary and of snippets hold a line for each
/// entry, with its name and what it stands for.
pub proof fn law_entries_are_listed(
    m: Seq<ModeDefinition>,
    p: Seq<StyleProfile>,
    v: Seq<VocabularyEntry>,
    s: Seq<SnippetEntry>,
    k: int,
)
    ensures
        0 <= k < m.len() ==> contains(
            mode_lines(m, m.len() as int),
            m[k].name@ + ": "@ + m[k].description@ + "\n"@,
        ),
        0 <= k < p.len() ==> contains(
            profile_lines(p, p.len() as int),
            p[k].name@ + ": "@ + p[k].summary@ + " ("@ + decimal(p[k].examples@.len())
                + " example(s))\n"@,
        ),
        0 <= k < v.len() ==> contains(
            vocabulary_lines(v, v.len() as int),
            v[k].phrase@ + " -> "@ + v[k].replacement@ + "\n"@,
        ),
        0 <= k < s.len() ==> contains(
            snippet_lines(s, s.len() as int),
            s[k].trigger@ + " -> "@ + replaced(s[k].body@, "\n"@, "\\n"@) + "\n"@,
        ),
{
    if 0 <= k < m.len() {
        let text = |n: int| mode_lines(m, n);
        let piece = |j: int| m[j].name@ + ": "@ + m[j].description@ + "\n"@;
        let n = m.len() as int;
        assert forall|i: int| 0 < i <= n implies #[trigger] text(i) == text(i - 1) + piece(
            i - 1,
        ) by {}
        lemma_pieces_stand(text, piece, n, k);
        assert(text(n) == mode_lines(m, n));
    }
    if 0 <= k < p.len() {
        let text = |n: int| profile_lines(p, n);
        let piece = |j: int|
            p[j].name@ + ": "@ + p[j].summary@ + " ("@ + decimal(p[j].examples@.len())
                + " example(s))\n"@;
        let n = p.len() as int;
        assert forall|i: int| 0 < i <= n implies #[trigger] text(i) == text(i - 1) + piece(
            i - 1,
        ) by {}
        lemma_pieces_stand(text, piece, n, k);
        assert(text(n) == profile_lines(p, n));
    }
    if 0 <= k < v.len() {
        let text = |n: int| vocabulary_lines(v, n);
        let piece = |j: int| v[j].phrase@ + " -> "@ + v[j].replacement@ + "\n"@;
        let n = v.len() as int;
        assert forall|i: int| 0 < i <= n implies #[trigger] text(i) == text(i - 1) + piece(
            i - 1,
        ) by {}
        lemma_pieces_stand(text, piece, n, k);
        assert(text(n) == vocabulary_lines(v, n));
    }
    if 0 <= k < s.len() {
        let text = |n: int| snippet_lines(s, n);
        let piece = |j: int|
            s[j].trigger@ + " -> "@ + replaced(s[j].body@, "\n"@, "\\n"@) + "\n"@;
        let n = s.len() as int;
        assert forall|i: int| 0 < i <= n implies #[trigger] text(i) == text(i - 1) + piece(
            i - 1,
        ) by {}
        lemma_pieces_stand(text, piece, n, k);
        assert(text(n) == snippet_lines(s, n));
    }
}

/// Each warning has a line of its own.
proof fn lemma_warning_line(w: Seq<Seq<char>>, head: Seq<char>, k: int)
    requires
        0 <= k < w.len(),
    ensures
        contains(warning_lines(w, head), head + w[k] + "\n"@),
    decreases w.len(),
{
    let t = w.drop_last();
    let none = Seq::<char>::empty();
    let x = head + w[k] + "\n"@;
    if k < t.len() {
        lemma_warning_line(t, head, k);
        let y = value_line(head, w.last());
        lemma_holds_within(none, warning_lines(t, head), y, x);
        assert(warning_lines(w, head) =~= none + warning_lines(t, head) + y);
    } else {
        lemma_holds(warning_lines(t, head), x, none);
        assert(warning_lines(w, head) =~= warning_lines(t, head) + x + none);
    }
}

/// What a stop reports, and the report on a session, hold each warning; and so does the
/// banner of a stop.
pub proof fn law_warnings_are_printed(s: MeetStopStatus, r: MeetStatusReport, k: int)
    ensures
        0 <= k < s.warnings@.len() ==> contains(
            stop_text(s),
            "warning: "@ + s.warnings@[k]@ + "\n"@,
        ) && contains(banner(texts(s.warnings@)), "- "@ + s.warnings@[k]@ + "\n"@),
        0 <= k < r.warnings@.len() ==> contains(
            status_text(r),
            "warning: "@ + r.warnings@[k]@ + "\n"@,
        ),
{
    let none = Seq::<char>::empty();
    if 0 <= k < s.warnings@.len() {
        let w = texts(s.warnings@);
        let x = "warning: "@ + s.warnings@[k]@ + "\n"@;
        lemma_warning_line(w, "warning: "@, k);
        let l = warning_lines(w, "warning: "@);
        let t = stop_text(s);
        let a = t.take(t.len() - l.len());
        lemma_holds_within(a, l, none, x);
        assert(t =~= a + l + none);
        lemma_warning_line(w, "- "@, k);
        lemma_holds_within(
            "===================== WARNING =====================\n"@,
            warning_lines(w, "- "@),
            "==================================================\n"@,
            "- "@ + s.warnings@[k]@ + "\n"@,
        );
    }
    if 0 <= k < r.warnings@.len() {
        let w = texts(r.warnings@);
        let x = "warning: "@ + r.warnings@[k]@ + "\n"@;
        lemma_warning_line(w, "warning: "@, k);
        let l = warning_lines(w, "warning: "@);
        let t = status_text(r);
        let a = t.take(t.len() - l.len());
        lemma_holds_within(a, l, none, x);
        assert(t =~= a + l + none);
    }
}

/// What a stop reports starts with its session, its status, how long it took and how long
/// the meeting was.
pub proof fn law_stop_reports_start_with_the_length(s: MeetStopStatus)
    ensures
        starts_with(
            stop_text(s),
            "session_id: "@ + s.session_id@ + "\nstatus: "@ + s.status@ + "\nelapsed_ms: "@
                + decimal(s.elapsed_ms as nat) + "\nduration_ms: "@ + decimal(s.duration_ms as nat)
                + "\nchunks_processed: "@ + decimal(s.chunks_processed as nat)
                + "\nsegment_count: "@ + decimal(s.segment_count as nat) + "\n"@,
        ),
{
    reveal_strlit("\n");
    reveal_strlit("status: ");
    reveal_strlit("\nstatus: ");
    reveal_strlit("elapsed_ms: ");
    reveal_strlit("\nelapsed_ms: ");
    reveal_strlit("duration_ms: ");
    reveal_strlit("\nduration_ms: ");
    reveal_strlit("chunks_processed: ");
    reveal_strlit("\nchunks_processed: ");
    reveal_strlit("segment_count: ");
    reveal_strlit("\nsegment_count: ");
    assert("\nstatus: "@ =~= "\n"@ + "status: "@);
    assert("\nelapsed_ms: "@ =~= "\n"@ + "elapsed_ms: "@);
    assert("\nduration_ms: "@ =~= "\n"@ + "duration_ms: "@);
    assert("\nchunks_processed: "@ =~= "\n"@ + "chunks_processed: "@);
    assert("\nsegment_count: "@ =~= "\n"@ + "segment_count: "@);
    let x = "session_id: "@ + s.session_id@ + "\nstatus: "@ + s.status@ + "\nelapsed_ms: "@
        + decimal(s.elapsed_ms as nat) + "\nduration_ms: "@ + decimal(s.duration_ms as nat)
        + "\nchunks_processed: "@ + decimal(s.chunks_processed as nat) + "\nsegment_count: "@
        + decimal(s.segment_count as nat) + "\n"@;
    let head = value_line("session_id: "@, s.session_id@) + value_line("status: "@, s.status@)
        + value_line("elapsed_ms: "@, decimal(s.elapsed_ms as nat)) + value_line(
        "duration_ms: "@,
        decimal(s.duration_ms as nat),
    ) + value_line("chunks_processed: "@, decimal(s.chunks_processed as nat)) + value_line(
        "segment_count: "@,
        decimal(s.segment_count as nat),
    );
    assert(x =~= head);
    assert(stop_text(s).take(head.len() as int) =~= head);
}

/// The audit lists each session that has audio left over, with its chunks and the remedy,
/// and each error of the search.
pub proof fn law_leftovers_are_listed(
    l: Seq<UnretainedMeetingAudio>,
    e: Seq<MeetingAudioScanError>,
    k: int,
)
    ensures
        0 <= k < l.len() ==> contains(
            leftover_lines(l, l.len() as int),
            "meeting_audio_leftover: session="@ + l[k].session_id@ + " status="@ + l[k].status@
                + " chunk_files="@ + decimal(l[k].chunk_files as nat) + " chunks_dir="@
                + l[k].chunks_dir@ + " remedy=`"@ + l[k].remedy@ + "` reason="@ + l[k].reason@
                + "\n"@,
        ),
        0 <= k < e.len() ==> contains(
            scan_error_lines(e, e.len() as int),
            "meeting_audio_scan_error: path="@ + e[k].path@ + " reason="@ + e[k].reason@ + "\n"@,
        ),
{
    if 0 <= k < l.len() {
        let text = |n: int| leftover_lines(l, n);
        let piece = |j: int|
            "meeting_audio_leftover: session="@ + l[j].session_id@ + " status="@ + l[j].status@
                + " chunk_files="@ + decimal(l[j].chunk_files as nat) + " chunks_dir="@
                + l[j].chunks_dir@ + " remedy=`"@ + l[j].remedy@ + "` reason="@ + l[j].reason@
                + "\n"@;
        let n = l.len() as int;
        assert forall|i: int| 0 < i <= n implies #[trigger] text(i) == text(i - 1) + piece(
            i - 1,
        ) by {}
        lemma_pieces_stand(text, piece, n, k);
        assert(text(n) == leftover_lines(l, n));
    }
    if 0 <= k < e.len() {
        let text = |n: int| scan_error_lines(e, n);
        let piece = |j: int|
            "meeting_audio_scan_error: path="@ + e[j].path@ + " reason="@ + e[j].reason@ + "\n"@;
        let n = e.len() as int;
        assert forall|i: int| 0 < i <= n implies #[trigger] text(i) == text(i - 1) + piece(
            i - 1,
        ) by {}
        lemma_pieces_stand(text, piece, n, k);
        assert(text(n) == scan_error_lines(e, n));
    }
}

/// What is printed of a transcript of the history ends with its text, where that is kept.
pub proof fn law_history_shows_the_text(s: StoredSession)
    ensures
        s.final_text matches Some(t) ==> ends_with(
            history_text(s),
            "final_text: "@ + t@ + "\n"@,
        ),
        starts_with(history_text(s), "id: "@ + s.id@ + "\n"@),
{
    let h = history_text(s);
    let x = "id: "@ + s.id@ + "\n"@;
    assert(h.take(x.len() as int) =~= x);
    if let Some(t) = s.final_text {
        let y = "final_text: "@ + t@ + "\n"@;
        assert(h.skip(h.len() - y.len()) =~= y);
    }
}

/// What the audit says of the language model: that it is off, or where it is reached and with
/// which model.
pub proof fn law_llm_use_is_told(c: LocalLlmConfig)
    ensures
        !c.enabled ==> starts_with(llm_status(c), "disabled"@),
        c.enabled ==> starts_with(llm_status(c), "enabled"@) && contains(llm_status(c), c.endpoint@)
            && (c.model matches Some(m) ==> contains(llm_status(c), m@)),
{
    reveal_strlit("disabled");
    reveal_strlit("disabled; local LLM rewrite is opt-in");
    reveal_strlit("enabled");
    reveal_strlit("enabled; provider=");
    let s = llm_status(c);
    if c.enabled {
        assert(s.take(7) =~= "enabled"@);
        let a = "enabled; provider="@ + c.provider.name() + "; endpoint="@;
        let b = s.skip((a + c.endpoint@).len() as int);
        assert(s.take((a + c.endpoint@).len() as int) =~= a + c.endpoint@);
        lemma_holds(a, c.endpoint@, b);
        assert(s =~= a + c.endpoint@ + b);
        if let Some(m) = c.model {
            let p = a + c.endpoint@ + "; model="@;
            let q = s.skip((p + m@).len() as int);
            assert(s.take((p + m@).len() as int) =~= p + m@);
            lemma_holds(p, m@, q);
            assert(s =~= p + m@ + q);
        }
    } else {
        assert(s.take(8) =~= "disabled"@);
    }
}

/// What a start, a detached stop and a report on a session print starts with the session and
/// how it stands; and each recorder of a start has a line.
pub proof fn law_prints_start_with_the_session(
    s: MeetStartStatus,
    d: MeetDetachedStatus,
    r: MeetStatusReport,
)
    ensures
        starts_with(
            start_text(s),
            "session_id: "@ + s.session_id@ + "\n"@ + ("status: "@ + s.status@ + "\n"@),
        ),
        starts_with(
            detached_text(d),
            "session_id: "@ + d.session_id@ + "\n"@ + ("status: "@ + d.status@ + "\n"@),
        ),
        starts_with(
            status_text(r),
            "session_id: "@ + (match r.session_id {
                Some(id) => id@,
                None => "<none>"@,
            }) + "\n"@ + ("status: "@ + r.status@ + "\n"@),
        ),
{
    let x = "session_id: "@ + s.session_id@ + "\n"@ + ("status: "@ + s.status@ + "\n"@);
    assert(start_text(s).take(x.len() as int) =~= x);
    let y = "session_id: "@ + d.session_id@ + "\n"@ + ("status: "@ + d.status@ + "\n"@);
    assert(detached_text(d).take(y.len() as int) =~= y);
    let z = "session_id: "@ + or_none(r.session_id) + "\n"@ + ("status: "@ + r.status@ + "\n"@);
    assert(status_text(r).take(z.len() as int) =~= z);
}

} // verus!
