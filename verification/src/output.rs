//! Transcripts as commands hand them out: text processing with an optional
//! rewrite, the output record and its Markdown form.
use vstd::prelude::*;

use crate::asr::{Segment, SourceMetadata, Transcript};
use crate::config::Config;
use crate::error::ComlinkError;
use crate::llm::{
    finish_rewrite, is_outcome, is_prepared, is_skipped, prepare_rewrite, reply_answer,
    skipped_record, LlmRewriteRecord, PreparedRewrite, RewriteInput, RewriteSuccess, TransportError,
};
use crate::numbers::{decimal, lemma_decimal_is_digits, u128_text, u64_text, usize_text};
use crate::strings::{
    cat2, cat4, cat5, contains, is_white, lemma_holds, lemma_holds_through, lemma_holds_trim_end,
    lemma_holds_within, opt_text, str_trim_end, texts, trim, trim_end,
};
use crate::text::{
    custom_mode, is_builtin, is_custom, mode_exists, resolve_mode, ResolvedMode, TextMode,
    TextRules,
};

verus! {

/// The layout of an output record.
pub const SCHEMA_VERSION: &'static str = "comlink.session.v1";

/// How a transcript is printed.
#[derive(Debug, Clone, Copy, PartialEq, Eq, Structural)]
pub enum OutputFormat {
    Text,
    Json,
    Jsonl,
    Md,
}

/// A step that was taken to process a text.
#[derive(Debug)]
pub struct ProcessingStep {
    pub name: String,
}

impl Clone for ProcessingStep {
    fn clone(&self) -> (r: Self)
        ensures
            r == *self,
    {
        ProcessingStep { name: self.name.clone() }
    }
}

/// What was used besides the dictated text.
#[derive(Debug, Clone)]
pub struct ContextMetadata {
    pub policy: String,
    pub items: Vec<String>,
}

impl Default for ContextMetadata {
    fn default() -> (r: Self)
        ensures
            r.policy@ == "none"@,
            r.items@.len() == 0,
    {
        ContextMetadata { policy: "none".to_owned(), items: Vec::new() }
    }
}

/// A transcript as commands hand it out.
#[derive(Debug, Clone)]
pub struct TranscriptOutput {
    pub schema_version: String,
    pub session_id: String,
    pub text: String,
    pub raw_text: String,
    pub final_text: String,
    pub mode: String,
    pub copied: bool,
    pub engine: String,
    pub model: String,
    pub duration_ms: u64,
    pub segments: Vec<Segment>,
    pub source: SourceMetadata,
    pub context: ContextMetadata,
    pub processing_steps: Vec<ProcessingStep>,
    pub warnings: Vec<String>,
    pub llm: Option<LlmRewriteRecord>,
    pub history_session_id: Option<String>,
}

/// A processed text.
#[derive(Debug, Clone)]
pub struct TextProcessingResult {
    pub mode: String,
    pub final_text: String,
    pub processing_steps: Vec<ProcessingStep>,
    pub warnings: Vec<String>,
    pub llm: Option<LlmRewriteRecord>,
}

/// The names of steps.
pub open spec fn step_names(v: Seq<ProcessingStep>) -> Seq<Seq<char>> {
    Seq::new(v.len(), |i: int| v[i].name@)
}

/// What the language model has to do with a text.
#[derive(Debug)]
pub enum LlmPlan {
    /// The mode asks for no rewrite.
    Unused,
    /// The rewrite is not made, as the record says: it was switched off.
    Skip(LlmRewriteRecord),
    /// The rewrite cannot be sent, as the record says.
    Refuse(LlmRewriteRecord),
    /// The rewrite is sent.
    Ask(PreparedRewrite),
}

/// A text processed without the language model, and what is left to do.
#[derive(Debug)]
pub struct TextPlan {
    pub mode: String,
    pub deterministic_text: String,
    pub processing_steps: Vec<ProcessingStep>,
    pub llm: LlmPlan,
}

/// The steps with the names of a mode's steps.
fn steps_of(names: Vec<String>) -> (r: Vec<ProcessingStep>)
    ensures
        step_names(r@) == texts(names@),
{
    let mut r: Vec<ProcessingStep> = Vec::new();
    let ghost all = names@;
    for name in it: names
        invariant
            it.seq() == all,
            step_names(r@) =~= texts(all).take(it.index()),
    {
        let ghost before = r@;
        let ghost text = name@;
        assert(texts(all)[it.index()] == text);
        r.push(ProcessingStep { name });
        assert(step_names(r@) =~= step_names(before).push(text));
        assert(texts(all).take(it.index() + 1) =~= texts(all).take(it.index()).push(text));
    }
    assert(texts(all).take(all.len() as int) =~= texts(all));
    r
}

/// Whether `m` is the mode that a name stands for.
pub open spec fn is_mode(config: Config, name: Seq<char>, m: ResolvedMode) -> bool {
    match custom_mode(config, name) {
        Some(e) => is_custom(config, name, e, m),
        None => match TextMode::named(name) {
            Some(t) => is_builtin(t, m),
            None => false,
        },
    }
}

/// What a resolved mode makes of a text without the language model.
pub open spec fn plain_text(config: Config, m: ResolvedMode, raw: Seq<char>) -> Seq<char> {
    m.deterministic_mode.processed(raw, config.vocabulary@, config.snippets@)
}

/// Whether `p` is the plan for a text in a mode: the local rules are applied, and
/// the language model is used exactly where the mode has an instruction for it
/// and it was not switched off.
pub open spec fn is_plan(
    config: Config,
    m: ResolvedMode,
    raw: Seq<char>,
    no_llm: bool,
    p: TextPlan,
) -> bool {
    &&& p.mode@ == m.name@
    &&& p.deterministic_text@ == plain_text(config, m, raw)
    &&& step_names(p.processing_steps@) == m.steps()
    &&& match m.llm_instruction {
        None => p.llm is Unused,
        Some(instruction) => if no_llm {
            p.llm matches LlmPlan::Skip(record) && is_skipped(record, "--no-llm was set"@)
        } else {
            let asked: Option<Result<PreparedRewrite, LlmRewriteRecord>> = match p.llm {
                LlmPlan::Ask(q) => Some(Ok(q)),
                LlmPlan::Refuse(record) => Some(Err(record)),
                _ => None,
            };
            asked is Some && is_prepared(
                config.llm,
                m.name@,
                p.deterministic_text@,
                instruction@,
                m.style_profile,
                asked->0,
            )
        },
    }
}

/// Processes a text as far as that goes without the language model. Fails where
/// the mode does not exist.
pub fn plan_text(raw_text: &str, mode: &str, config: &Config, no_llm: bool) -> (r: Result<
    TextPlan,
    ComlinkError,
>)
    ensures
        if mode_exists(*config, mode@) {
            r matches Ok(p) && exists|m: ResolvedMode|
                #[trigger] is_mode(*config, mode@, m) && is_plan(
                    *config,
                    m,
                    raw_text@,
                    no_llm,
                    p,
                )
        } else {
            r matches Err(ComlinkError::ModeNotFound(name)) && name@ == mode@
        },
{
    let resolved = match resolve_mode(config, mode) {
        Some(m) => m,
        None => {
            return Err(ComlinkError::ModeNotFound(mode.to_owned()));
        },
    };
    let ghost m = resolved;
    assert(is_mode(*config, mode@, m));
    let rules = TextRules {
        vocabulary: config.vocabulary.as_slice(),
        snippets: config.snippets.as_slice(),
    };
    let deterministic_text = resolved.process_deterministic(raw_text, rules);
    let processing_steps = steps_of(resolved.processing_steps());
    let llm = match &resolved.llm_instruction {
        None => LlmPlan::Unused,
        Some(instruction) => if no_llm {
            LlmPlan::Skip(skipped_record("--no-llm was set"))
        } else {
            let input = RewriteInput {
                mode: resolved.name.as_str(),
                text: deterministic_text.as_str(),
                instruction: instruction.as_str(),
                profile: resolved.style_profile,
            };
            match prepare_rewrite(&config.llm, &input) {
                Ok(q) => LlmPlan::Ask(q),
                Err(record) => LlmPlan::Refuse(record),
            }
        },
    };
    Ok(TextPlan { mode: resolved.name, deterministic_text, processing_steps, llm })
}

/// The warning for a rewrite that failed.
pub open spec fn rewrite_warning(record: LlmRewriteRecord) -> Seq<char> {
    "local LLM rewrite unavailable: "@ + match record.error {
        Some(e) => e@,
        None => "local LLM rewrite failed"@,
    }
}

/// Whether `t` is a plan completed without a rewrite, for the reason in `record`.
pub open spec fn is_unrewritten(p: TextPlan, record: LlmRewriteRecord, t: TextProcessingResult) -> bool {
    &&& t.mode == p.mode
    &&& t.final_text == p.deterministic_text
    &&& t.processing_steps == p.processing_steps
    &&& texts(t.warnings@) == seq![rewrite_warning(record)]
    &&& t.llm == Some(record)
}

/// Whether `t` is a plan completed with a rewritten text.
pub open spec fn is_rewritten(p: TextPlan, s: RewriteSuccess, t: TextProcessingResult) -> bool {
    &&& t.mode == p.mode
    &&& t.final_text == s.text
    &&& step_names(t.processing_steps@) == step_names(p.processing_steps@).push("llm-rewrite"@)
    &&& t.warnings@.len() == 0
    &&& t.llm == Some(s.record)
}

/// Whether `t` is what a plan comes to, given the reply where it asks for one. A
/// rewrite that fails leaves the text of the local rules, with a warning.
pub open spec fn is_completed(
    p: TextPlan,
    reply: Result<String, TransportError>,
    t: TextProcessingResult,
) -> bool {
    match p.llm {
        LlmPlan::Unused => {
            &&& t.mode == p.mode
            &&& t.final_text == p.deterministic_text
            &&& t.processing_steps == p.processing_steps
            &&& t.warnings@.len() == 0
            &&& t.llm is None
        },
        LlmPlan::Skip(record) => {
            &&& t.mode == p.mode
            &&& t.final_text == p.deterministic_text
            &&& t.processing_steps == p.processing_steps
            &&& t.warnings@.len() == 0
            &&& t.llm == Some(record)
        },
        LlmPlan::Refuse(record) => is_unrewritten(p, record, t),
        LlmPlan::Ask(q) => exists|o: Result<RewriteSuccess, LlmRewriteRecord>|
            #[trigger] is_outcome(q.request, reply_answer(q.provider, reply), o) && match o {
                Ok(s) => is_rewritten(p, s, t),
                Err(record) => is_unrewritten(p, record, t),
            },
    }
}

/// Completes a plan without a rewrite.
fn without_rewrite(
    mode: String,
    text: String,
    steps: Vec<ProcessingStep>,
    record: LlmRewriteRecord,
) -> (r: TextProcessingResult)
    ensures
        r.mode == mode,
        r.final_text == text,
        r.processing_steps == steps,
        texts(r.warnings@) == seq![rewrite_warning(record)],
        r.llm == Some(record),
{
    let warning = match &record.error {
        Some(e) => cat2("local LLM rewrite unavailable: ", e),
        None => cat2("local LLM rewrite unavailable: ", "local LLM rewrite failed"),
    };
    let mut warnings: Vec<String> = Vec::new();
    warnings.push(warning);
    assert(texts(warnings@) =~= seq![rewrite_warning(record)]);
    TextProcessingResult {
        mode,
        final_text: text,
        processing_steps: steps,
        warnings,
        llm: Some(record),
    }
}

/// Completes a plan. The reply counts only where the plan asks for one.
pub fn complete_text(plan: TextPlan, reply: Result<String, TransportError>) -> (r:
    TextProcessingResult)
    ensures
        is_completed(plan, reply, r),
{
    let mode = plan.mode;
    let text = plan.deterministic_text;
    let mut steps = plan.processing_steps;
    match plan.llm {
        LlmPlan::Unused => TextProcessingResult {
            mode,
            final_text: text,
            processing_steps: steps,
            warnings: Vec::new(),
            llm: None,
        },
        LlmPlan::Skip(record) => TextProcessingResult {
            mode,
            final_text: text,
            processing_steps: steps,
            warnings: Vec::new(),
            llm: Some(record),
        },
        LlmPlan::Refuse(record) => without_rewrite(mode, text, steps, record),
        LlmPlan::Ask(q) => {
            let outcome = finish_rewrite(q.provider, q.request, reply);
            let ghost o = outcome;
            assert(is_outcome(q.request, reply_answer(q.provider, reply), o));
            match outcome {
                Ok(s) => {
                    let ghost before = steps@;
                    steps.push(ProcessingStep { name: "llm-rewrite".to_owned() });
                    assert(step_names(steps@) =~= step_names(before).push("llm-rewrite"@));
                    TextProcessingResult {
                        mode,
                        final_text: s.text,
                        processing_steps: steps,
                        warnings: Vec::new(),
                        llm: Some(s.record),
                    }
                },
                Err(record) => without_rewrite(mode, text, steps, record),
            }
        },
    }
}

/// Processes a text in a mode, given the reply of the language model, which
/// counts only where the mode and the configuration ask for one. Fails where the
/// mode does not exist.
pub fn process_text(
    raw_text: &str,
    mode: &str,
    config: &Config,
    no_llm: bool,
    reply: Result<String, TransportError>,
) -> (r: Result<TextProcessingResult, ComlinkError>)
    ensures
        if mode_exists(*config, mode@) {
            r matches Ok(t) && exists|m: ResolvedMode, p: TextPlan|
                #[trigger] is_mode(*config, mode@, m) && #[trigger] is_plan(
                    *config,
                    m,
                    raw_text@,
                    no_llm,
                    p,
                ) && is_completed(p, reply, t)
        } else {
            r matches Err(ComlinkError::ModeNotFound(name)) && name@ == mode@
        },
{
    match plan_text(raw_text, mode, config, no_llm) {
        Ok(plan) => {
            let ghost m = choose|m: ResolvedMode|
                #[trigger] is_mode(*config, mode@, m) && is_plan(
                    *config,
                    m,
                    raw_text@,
                    no_llm,
                    plan,
                );
            let t = complete_text(plan, reply);
            assert(is_mode(*config, mode@, m) && is_plan(*config, m, raw_text@, no_llm, plan)
                && is_completed(plan, reply, t));
            Ok(t)
        },
        Err(e) => Err(e),
    }
}

/// Without an instruction for the language model, or with it switched off, the
/// processed text is what the local rules make of it, whatever a reply might say.
pub proof fn law_local_rules_without_llm(
    config: Config,
    m: ResolvedMode,
    raw: Seq<char>,
    no_llm: bool,
    p: TextPlan,
    reply: Result<String, TransportError>,
    t: TextProcessingResult,
)
    requires
        m.llm_instruction is None || no_llm,
        is_plan(config, m, raw, no_llm, p),
        is_completed(p, reply, t),
    ensures
        t.final_text@ == plain_text(config, m, raw),
        step_names(t.processing_steps@) == m.steps(),
        t.warnings@.len() == 0,
{
}

impl TranscriptOutput {
    /// The output record of a transcript whose text was processed.
    pub fn from_transcript(
        transcript: Transcript,
        processed: TextProcessingResult,
        copied: bool,
        session_id: String,
    ) -> (r: Self)
        ensures
            r.schema_version@ == SCHEMA_VERSION@,
            r.session_id == session_id,
            r.text == processed.final_text,
            r.raw_text == transcript.text,
            r.final_text == processed.final_text,
            r.mode == processed.mode,
            r.copied == copied,
            r.engine == transcript.engine,
            r.model == transcript.model,
            r.duration_ms == transcript.duration_ms,
            r.segments == transcript.segments,
            r.source == transcript.source,
            r.context.policy@ == "none"@,
            r.context.items@.len() == 0,
            r.processing_steps == processed.processing_steps,
            r.warnings == processed.warnings,
            r.llm == processed.llm,
            r.history_session_id is None,
    {
        TranscriptOutput {
            schema_version: SCHEMA_VERSION.to_owned(),
            session_id,
            text: processed.final_text.clone(),
            raw_text: transcript.text,
            final_text: processed.final_text,
            mode: processed.mode,
            copied,
            engine: transcript.engine,
            model: transcript.model,
            duration_ms: transcript.duration_ms,
            segments: transcript.segments,
            source: transcript.source,
            context: ContextMetadata::default(),
            processing_steps: processed.processing_steps,
            warnings: processed.warnings,
            llm: processed.llm,
            history_session_id: None,
        }
    }
}

/// A mode with an instruction, unless it is switched off, hands over what the language
/// model answers; where that fails, what the local rules make of the text, with a warning
/// that tells why.
pub proof fn law_rewrites_replace_the_text(
    config: Config,
    m: ResolvedMode,
    raw: Seq<char>,
    p: TextPlan,
    reply: Result<String, TransportError>,
    t: TextProcessingResult,
)
    requires
        m.llm_instruction is Some,
        is_plan(config, m, raw, false, p),
        is_completed(p, reply, t),
    ensures
        t.mode@ == m.name@,
        match p.llm {
            LlmPlan::Ask(q) => match reply_answer(q.provider, reply) {
                Ok(text) => if trim(text).len() > 0 {
                    t.final_text@ == trim(text) && t.warnings@.len() == 0 && step_names(
                        t.processing_steps@,
                    ) == m.steps().push("llm-rewrite"@)
                } else {
                    t.final_text@ == plain_text(config, m, raw) && t.warnings@.len() == 1
                },
                Err(e) => t.final_text@ == plain_text(config, m, raw) && t.warnings@.len() == 1
                    && t.warnings@[0]@ == "local LLM rewrite unavailable: "@ + e,
            },
            _ => t.final_text@ == plain_text(config, m, raw) && t.warnings@.len() == 1
                && step_names(t.processing_steps@) == m.steps(),
        },
{
    if let LlmPlan::Ask(q) = p.llm {
        let o = choose|o: Result<RewriteSuccess, LlmRewriteRecord>|
            #[trigger] is_outcome(q.request, reply_answer(q.provider, reply), o) && match o {
                Ok(s) => is_rewritten(p, s, t),
                Err(record) => is_unrewritten(p, record, t),
            };
        if let Err(record) = o {
            assert(texts(t.warnings@)[0] == rewrite_warning(record));
            assert(t.warnings@.len() == texts(t.warnings@).len());
        }
    } else {
        assert(texts(t.warnings@).len() == t.warnings@.len());
    }
}

/// Each warning has an item of its own.
pub proof fn lemma_warning_stands(w: Seq<Seq<char>>, k: int)
    requires
        0 <= k < w.len(),
    ensures
        contains(warning_items(w), "- "@ + w[k] + "\n"@),
    decreases w.len(),
{
    let t = w.drop_last();
    let none = Seq::<char>::empty();
    let x = "- "@ + w[k] + "\n"@;
    if k < t.len() {
        lemma_warning_stands(t, k);
        let y = "- "@ + w.last() + "\n"@;
        lemma_holds_within(none, warning_items(t), y, x);
        assert(warning_items(w) =~= none + warning_items(t) + y);
    } else {
        lemma_holds(warning_items(t), x, none);
        assert(warning_items(w) =~= warning_items(t) + x + none);
    }
}

/// Each segment has an item of its own.
proof fn lemma_segment_stands(s: Seq<Segment>, n: int, k: int)
    requires
        0 <= k < n <= s.len(),
    ensures
        contains(
            segment_items(s, n),
            decimal(s[k].start_ms as nat) + "-"@ + decimal(s[k].end_ms as nat) + " ms: "@
                + s[k].text@,
        ),
    decreases n,
{
    let none = Seq::<char>::empty();
    let x = decimal(s[k].start_ms as nat) + "-"@ + decimal(s[k].end_ms as nat) + " ms: "@
        + s[k].text@;
    let rest = segment_items(s, n - 1);
    if k < n - 1 {
        lemma_segment_stands(s, n - 1, k);
        let y = segment_items(s, n).skip(rest.len() as int);
        lemma_holds_within(none, rest, y, x);
        assert(segment_items(s, n) =~= none + rest + y);
    } else {
        let a = rest + "- "@ + decimal(k as nat) + ": "@;
        lemma_holds(a, x, "\n"@);
        assert(segment_items(s, n) =~= a + x + "\n"@);
    }
}

/// The Markdown form of a transcript holds its final text, its raw text, each warning and
/// each segment with its times, as far as these do not end with white space.
#[verifier::spinoff_prover]
#[verifier::rlimit(40)]
pub proof fn law_markdown_holds_the_transcript(t: TranscriptOutput)
    ensures
        t.final_text@.len() > 0 && !is_white(t.final_text@.last()) ==> contains(
            transcript_markdown(t),
            "## Final Text\n\n"@ + t.final_text@,
        ),
        t.raw_text@.len() > 0 && !is_white(t.raw_text@.last()) ==> contains(
            transcript_markdown(t),
            "## Raw Text\n\n"@ + t.raw_text@,
        ),
        forall|k: int|
            0 <= k < t.warnings@.len() && (#[trigger] t.warnings@[k])@.len() > 0 && !is_white(
                t.warnings@[k]@.last(),
            ) ==> contains(transcript_markdown(t), "- "@ + t.warnings@[k]@),
        forall|k: int|
            0 <= k < t.segments@.len() && (#[trigger] t.segments@[k]).text@.len() > 0 && !is_white(
                t.segments@[k].text@.last(),
            ) ==> contains(
                transcript_markdown(t),
                decimal(t.segments@[k].start_ms as nat) + "-"@ + decimal(
                    t.segments@[k].end_ms as nat,
                ) + " ms: "@ + t.segments@[k].text@,
            ),
{
    let w = warnings_section(texts(t.warnings@));
    let g = segments_section(t.segments@);
    lemma_document(transcript_head(t), t.final_text@, t.raw_text@, w, g);
    assert forall|k: int|
        0 <= k < t.warnings@.len() && (#[trigger] t.warnings@[k])@.len() > 0 && !is_white(
            t.warnings@[k]@.last(),
        ) implies contains(transcript_markdown(t), "- "@ + t.warnings@[k]@) by {
        lemma_warning_listed(texts(t.warnings@), k);
        assert(("- "@ + t.warnings@[k]@).last() == t.warnings@[k]@.last());
    }
    assert forall|k: int|
        0 <= k < t.segments@.len() && (#[trigger] t.segments@[k]).text@.len() > 0 && !is_white(
            t.segments@[k].text@.last(),
        ) implies contains(
        transcript_markdown(t),
        decimal(t.segments@[k].start_ms as nat) + "-"@ + decimal(t.segments@[k].end_ms as nat)
            + " ms: "@ + t.segments@[k].text@,
    ) by {
        lemma_segment_listed(t.segments@, k);
        assert((decimal(t.segments@[k].start_ms as nat) + "-"@ + decimal(
            t.segments@[k].end_ms as nat,
        ) + " ms: "@ + t.segments@[k].text@).last() == t.segments@[k].text@.last());
    }
}

/// The section on warnings holds each of them.
pub proof fn lemma_warning_listed(w: Seq<Seq<char>>, k: int)
    requires
        0 <= k < w.len(),
    ensures
        contains(warnings_section(w), "- "@ + w[k]),
{
    let none = Seq::<char>::empty();
    let x = "- "@ + w[k];
    lemma_warning_stands(w, k);
    lemma_holds(none, x, "\n"@);
    assert(none + x + "\n"@ =~= "- "@ + w[k] + "\n"@);
    lemma_holds_through(warning_items(w), "- "@ + w[k] + "\n"@, x);
    lemma_holds_within("\n\n## Warnings\n\n"@, warning_items(w), none, x);
    assert(warnings_section(w) =~= "\n\n## Warnings\n\n"@ + warning_items(w) + none);
}

/// The section on segments holds each of them.
proof fn lemma_segment_listed(s: Seq<Segment>, k: int)
    requires
        0 <= k < s.len(),
    ensures
        contains(
            segments_section(s),
            decimal(s[k].start_ms as nat) + "-"@ + decimal(s[k].end_ms as nat) + " ms: "@
                + s[k].text@,
        ),
{
    let none = Seq::<char>::empty();
    let x = decimal(s[k].start_ms as nat) + "-"@ + decimal(s[k].end_ms as nat) + " ms: "@
        + s[k].text@;
    let items = segment_items(s, s.len() as int);
    lemma_segment_stands(s, s.len() as int, k);
    lemma_holds_within("\n\n## Segments\n\n"@, items, none, x);
    assert(segments_section(s) =~= "\n\n## Segments\n\n"@ + items + none);
}

/// A document holds its texts and what its last sections hold.
proof fn lemma_document(
    head: Seq<char>,
    text: Seq<char>,
    raw: Seq<char>,
    w: Seq<char>,
    g: Seq<char>,
)
    ensures
        ({
            let doc = trim_end(
                head + "## Final Text\n\n"@ + text + "\n\n## Raw Text\n\n"@ + raw + w + g,
            );
            &&& text.len() > 0 && !is_white(text.last()) ==> contains(
                doc,
                "## Final Text\n\n"@ + text,
            )
            &&& raw.len() > 0 && !is_white(raw.last()) ==> contains(
                doc,
                "## Raw Text\n\n"@ + raw,
            )
            &&& forall|x: Seq<char>| #[trigger]
                contains(w, x) && x.len() > 0 && !is_white(x.last()) ==> contains(doc, x)
            &&& forall|x: Seq<char>| #[trigger]
                contains(g, x) && x.len() > 0 && !is_white(x.last()) ==> contains(doc, x)
        }),
{
    let none = Seq::<char>::empty();
    let doc = head + "## Final Text\n\n"@ + text + "\n\n## Raw Text\n\n"@ + raw + w + g;
    let f = "## Final Text\n\n"@ + text;
    let q = "## Raw Text\n\n"@ + raw;
    if text.len() > 0 && !is_white(text.last()) {
        let after = "\n\n## Raw Text\n\n"@ + raw + w + g;
        lemma_holds(head, f, after);
        assert(doc =~= head + f + after);
        assert(f.last() == text.last());
        lemma_holds_trim_end(doc, f);
    }
    if raw.len() > 0 && !is_white(raw.last()) {
        reveal_strlit("\n\n## Raw Text\n\n");
        reveal_strlit("## Raw Text\n\n");
        reveal_strlit("\n\n");
        assert("\n\n## Raw Text\n\n"@ =~= "\n\n"@ + "## Raw Text\n\n"@);
        let a = head + f + "\n\n"@;
        lemma_holds(a, q, w + g);
        assert(doc =~= a + q + (w + g));
        assert(q.last() == raw.last());
        lemma_holds_trim_end(doc, q);
    }
    let before = head + "## Final Text\n\n"@ + text + "\n\n## Raw Text\n\n"@ + raw;
    assert forall|x: Seq<char>| #[trigger]
        contains(w, x) && x.len() > 0 && !is_white(x.last()) implies contains(
        trim_end(doc),
        x,
    ) by {
        lemma_holds_within(before, w, g, x);
        lemma_holds_trim_end(doc, x);
    }
    assert forall|x: Seq<char>| #[trigger]
        contains(g, x) && x.len() > 0 && !is_white(x.last()) implies contains(
        trim_end(doc),
        x,
    ) by {
        lemma_holds_within(before + w, g, none, x);
        assert(doc =~= before + w + g + none);
        lemma_holds_trim_end(doc, x);
    }
}

/// The identifier of a session that starts at a time in a process: it differs for
/// every sequence number.
pub open spec fn session_name(nanos: nat, pid: nat, sequence: nat) -> Seq<char> {
    "s"@ + decimal(nanos) + "-"@ + decimal(pid) + "-"@ + decimal(sequence)
}

/// The identifier of a session.
pub fn new_session_id(nanos: u128, pid: u32, sequence: u64) -> (r: String)
    ensures
        r@ == session_name(nanos as nat, pid as nat, sequence as nat),
{
    let mut s = cat5("s", &u128_text(nanos), "-", &u64_text(pid as u64), "-");
    s.append(&u64_text(sequence));
    s
}

// ---------------------------------------------------------------------------
// Markdown
// ---------------------------------------------------------------------------

/// A line with a labelled value.
pub open spec fn field_line(label: Seq<char>, value: Seq<char>) -> Seq<char> {
    "- **"@ + label + ":** "@ + value + "\n"@
}

/// Adds a line with a labelled value.
pub fn push_field(markdown: &mut String, label: &str, value: &str)
    ensures
        final(markdown)@ == old(markdown)@ + field_line(label@, value@),
{
    let line = cat5("- **", label, ":** ", value, "\n");
    markdown.append(&line);
}

/// A line with a labelled value, where there is a value.
pub open spec fn opt_field_line(label: Seq<char>, value: Option<Seq<char>>) -> Seq<char> {
    match value {
        Some(v) => field_line(label, v),
        None => Seq::empty(),
    }
}

/// Adds a line with a labelled value, where there is a value.
pub fn push_opt_field(markdown: &mut String, label: &str, value: &Option<String>)
    ensures
        final(markdown)@ == old(markdown)@ + opt_field_line(label@, opt_text(*value)),
{
    match value {
        Some(v) => push_field(markdown, label, v),
        None => {
            assert(markdown@ + Seq::<char>::empty() =~= markdown@);
        },
    }
}

/// A list item for each warning.
pub open spec fn warning_items(w: Seq<Seq<char>>) -> Seq<char>
    decreases w.len(),
{
    if w.len() == 0 {
        Seq::empty()
    } else {
        warning_items(w.drop_last()) + ("- "@ + w.last() + "\n"@)
    }
}

/// The section that lists warnings, where there are any.
pub open spec fn warnings_section(w: Seq<Seq<char>>) -> Seq<char> {
    if w.len() == 0 {
        Seq::empty()
    } else {
        "\n\n## Warnings\n\n"@ + warning_items(w)
    }
}

/// Adds the section that lists warnings, where there are any.
pub fn push_warnings(markdown: &mut String, warnings: &Vec<String>)
    ensures
        final(markdown)@ == old(markdown)@ + warnings_section(texts(warnings@)),
{
    let ghost start = markdown@;
    if warnings.len() == 0 {
        assert(start + Seq::<char>::empty() =~= start);
        return;
    }
    markdown.append("\n\n## Warnings\n\n");
    let ghost w = texts(warnings@);
    let ghost head = markdown@;
    let mut i: usize = 0;
    assert(head + warning_items(w.take(0)) =~= head);
    while i < warnings.len()
        invariant
            i <= warnings@.len(),
            w == texts(warnings@),
            markdown@ == head + warning_items(w.take(i as int)),
        decreases warnings@.len() - i,
    {
        let item = crate::strings::cat3("- ", &warnings[i], "\n");
        assert(w.take(i + 1).drop_last() =~= w.take(i as int));
        assert(head + warning_items(w.take(i as int)) + item@ =~= head + (warning_items(
            w.take(i as int),
        ) + item@));
        markdown.append(&item);
        i += 1;
    }
    assert(w.take(w.len() as int) =~= w);
    assert(markdown@ =~= start + ("\n\n## Warnings\n\n"@ + warning_items(w)));
}

/// A list item for each of the first `n` segments.
pub open spec fn segment_items(s: Seq<Segment>, n: int) -> Seq<char>
    decreases n,
{
    if n <= 0 {
        Seq::empty()
    } else {
        segment_items(s, n - 1) + ("- "@ + decimal((n - 1) as nat) + ": "@ + decimal(
            s[n - 1].start_ms as nat,
        ) + "-"@ + decimal(s[n - 1].end_ms as nat) + " ms: "@ + s[n - 1].text@ + "\n"@)
    }
}

/// The section that lists segments, where there are any.
pub open spec fn segments_section(s: Seq<Segment>) -> Seq<char> {
    if s.len() == 0 {
        Seq::empty()
    } else {
        "\n\n## Segments\n\n"@ + segment_items(s, s.len() as int)
    }
}

/// Adds the section that lists segments, where there are any.
fn push_segments(markdown: &mut String, segments: &Vec<Segment>)
    ensures
        final(markdown)@ == old(markdown)@ + segments_section(segments@),
{
    let ghost start = markdown@;
    if segments.len() == 0 {
        assert(start + Seq::<char>::empty() =~= start);
        return;
    }
    markdown.append("\n\n## Segments\n\n");
    let ghost head = markdown@;
    let mut i: usize = 0;
    assert(head + segment_items(segments@, 0) =~= head);
    while i < segments.len()
        invariant
            i <= segments@.len(),
            markdown@ == head + segment_items(segments@, i as int),
        decreases segments@.len() - i,
    {
        let s = &segments[i];
        let mut item = crate::strings::cat8(
            "- ",
            &usize_text(i),
            ": ",
            &u64_text(s.start_ms),
            "-",
            &u64_text(s.end_ms),
            " ms: ",
            &s.text,
        );
        item.append("\n");
        assert(head + segment_items(segments@, i as int) + item@ =~= head + (segment_items(
            segments@,
            i as int,
        ) + item@));
        markdown.append(&item);
        i += 1;
    }
    assert(markdown@ =~= start + ("\n\n## Segments\n\n"@ + segment_items(
        segments@,
        segments@.len() as int,
    )));
}

/// How the audio of a source was normalised.
pub open spec fn source_audio_text(rate: nat, channels: nat) -> Seq<char> {
    decimal(rate) + " Hz, "@ + decimal(channels) + " channel(s)"@
}

/// How the audio of a source was normalised.
pub fn source_audio(rate: u32, channels: u16) -> (r: String)
    ensures
        r@ == source_audio_text(rate as nat, channels as nat),
{
    cat4(&u64_text(rate as u64), " Hz, ", &u64_text(channels as u64), " channel(s)")
}

/// What stands before the texts of a transcript.
pub open spec fn transcript_head(t: TranscriptOutput) -> Seq<char> {
    "# Comlink Transcript\n\n"@ + "## Metadata\n\n"@ + field_line(
            "Schema"@,
            t.schema_version@,
        ) + field_line("Session"@, t.session_id@) + opt_field_line(
            "History session"@,
            opt_text(t.history_session_id),
        ) + field_line("Mode"@, t.mode@) + field_line("Engine"@, t.engine@) + field_line(
            "Model"@,
            t.model@,
        ) + field_line("Duration"@, decimal(t.duration_ms as nat) + " ms"@) + field_line(
            "Source"@,
            t.source.path@,
        ) + field_line(
            "Source audio"@,
            source_audio_text(
                t.source.normalized_sample_rate_hz as nat,
                t.source.normalized_channels as nat,
            ),
        ) + field_line("Context policy"@, t.context.policy@) + opt_field_line(
            "LLM rewrite"@,
            match t.llm {
                Some(record) => Some(record.status@),
                None => None,
            },
        ) + "\n"@
}

/// A transcript as a Markdown document.
pub open spec fn transcript_markdown(t: TranscriptOutput) -> Seq<char> {
    trim_end(
        transcript_head(t) + "## Final Text\n\n"@ + t.final_text@ + "\n\n## Raw Text\n\n"@ + t.raw_text@
            + warnings_section(texts(t.warnings@)) + segments_section(t.segments@),
    )
}

/// A transcript as a Markdown document.
pub fn render_markdown(transcript: &TranscriptOutput) -> (r: String)
    ensures
        r@ == transcript_markdown(*transcript),
{
    let t = transcript;
    let mut m = cat2("# Comlink Transcript\n\n", "## Metadata\n\n");
    push_field(&mut m, "Schema", &t.schema_version);
    push_field(&mut m, "Session", &t.session_id);
    push_opt_field(&mut m, "History session", &t.history_session_id);
    push_field(&mut m, "Mode", &t.mode);
    push_field(&mut m, "Engine", &t.engine);
    push_field(&mut m, "Model", &t.model);
    push_field(&mut m, "Duration", &cat2(&u64_text(t.duration_ms), " ms"));
    push_field(&mut m, "Source", &t.source.path);
    push_field(
        &mut m,
        "Source audio",
        &source_audio(t.source.normalized_sample_rate_hz, t.source.normalized_channels),
    );
    push_field(&mut m, "Context policy", &t.context.policy);
    let status = match &t.llm {
        Some(record) => Some(record.status.clone()),
        None => None,
    };
    push_opt_field(&mut m, "LLM rewrite", &status);
    m.append("\n");
    m.append("## Final Text\n\n");
    m.append(&t.final_text);
    m.append("\n\n## Raw Text\n\n");
    m.append(&t.raw_text);
    push_warnings(&mut m, &t.warnings);
    push_segments(&mut m, &t.segments);
    str_trim_end(&m)
}

/// Sessions that one process starts have names of their own.
pub proof fn law_session_names_differ(nanos: nat, pid: nat, a: nat, b: nat)
    requires
        a != b,
    ensures
        session_name(nanos, pid, a) != session_name(nanos, pid, b),
{
    let p = "s"@ + decimal(nanos) + "-"@ + decimal(pid) + "-"@;
    let (x, y) = (session_name(nanos, pid, a), session_name(nanos, pid, b));
    let n = p.len() as int;
    assert(x.skip(n) =~= decimal(a));
    assert(y.skip(n) =~= decimal(b));
    lemma_decimal_is_digits(a);
    lemma_decimal_is_digits(b);
}

} // verus!
