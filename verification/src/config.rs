//! Configuration: its parts, the merge of defaults, file, environment and
//! command line, and the edits that commands make.
use vstd::prelude::*;
use vstd::utf8::encode_utf8;

use crate::error::ComlinkError;
use crate::ordering::{
    insert_ranked, is_ranked, lemma_ranked, lemma_ranked_is_settled, lemma_text_le_reflexive,
    lemma_text_le_total, lemma_text_le_transitive, ranked, sort_ranked, str_le, text_le, Ranked,
};
use crate::numbers::{bool_text, bool_word};
use crate::paths::{join_path, joined};
use crate::strings::{
    cat2, copy_opt, eq_ignore_case, join, lemma_texts_push, lower, opt_text, str_eq,
    str_eq_ignore_case, str_join, str_trim, texts, to_lower, trim,
};

verus! {

/// How a command prints the configuration.
#[derive(Debug, Clone, Copy, PartialEq, Eq, Structural)]
pub enum ConfigFormat {
    Text,
    Json,
}

/// What is kept once a session is over.
#[derive(Debug, PartialEq, Eq, Structural)]
pub struct RetentionConfig {
    pub metadata: bool,
    pub transcripts: bool,
    pub audio: bool,
}

impl Clone for RetentionConfig {
    fn clone(&self) -> (r: Self)
        ensures
            r == *self,
    {
        RetentionConfig {
            metadata: self.metadata,
            transcripts: self.transcripts,
            audio: self.audio,
        }
    }
}

impl Default for RetentionConfig {
    fn default() -> (r: Self)
        ensures
            r == (RetentionConfig { metadata: true, transcripts: true, audio: false }),
    {
        RetentionConfig { metadata: true, transcripts: true, audio: false }
    }
}

/// A model file under a name.
#[derive(Debug, PartialEq, Eq)]
pub struct ModelEntry {
    pub name: String,
    pub path: String,
    pub selected: bool,
}

impl Clone for ModelEntry {
    fn clone(&self) -> (r: Self)
        ensures
            r == *self,
    {
        ModelEntry { name: self.name.clone(), path: self.path.clone(), selected: self.selected }
    }
}

/// A dictated phrase and the text that replaces it.
#[derive(Debug, PartialEq, Eq)]
pub struct VocabularyEntry {
    pub phrase: String,
    pub replacement: String,
}

impl Clone for VocabularyEntry {
    fn clone(&self) -> (r: Self)
        ensures
            r == *self,
    {
        VocabularyEntry { phrase: self.phrase.clone(), replacement: self.replacement.clone() }
    }
}

/// A dictated trigger and the text it stands for.
#[derive(Debug, PartialEq, Eq)]
pub struct SnippetEntry {
    pub trigger: String,
    pub body: String,
}

impl Clone for SnippetEntry {
    fn clone(&self) -> (r: Self)
        ensures
            r == *self,
    {
        SnippetEntry { trigger: self.trigger.clone(), body: self.body.clone() }
    }
}

/// The protocol of a local language model server.
#[derive(Debug, Clone, Copy, PartialEq, Eq, Structural)]
pub enum LlmProvider {
    Ollama,
    OpenAiCompatible,
}

impl LlmProvider {
    /// The spelling of the provider.
    pub open spec fn name(self) -> Seq<char> {
        match self {
            LlmProvider::Ollama => "ollama"@,
            LlmProvider::OpenAiCompatible => "openai-compatible"@,
        }
    }

    /// The spelling of the provider.
    pub fn as_str(&self) -> (r: &'static str)
        ensures
            r@ == self.name(),
    {
        match self {
            LlmProvider::Ollama => "ollama",
            LlmProvider::OpenAiCompatible => "openai-compatible",
        }
    }

    /// The provider that a configuration file names; the older spelling with two hyphens
    /// is read too.
    pub open spec fn stored(name: Seq<char>) -> Option<LlmProvider> {
        if name == "ollama"@ {
            Some(LlmProvider::Ollama)
        } else if name == "openai-compatible"@ || name == "open-ai-compatible"@ {
            Some(LlmProvider::OpenAiCompatible)
        } else {
            None
        }
    }

    /// Reads the provider that a configuration file names.
    pub fn parse_stored(name: &str) -> (r: Option<LlmProvider>)
        ensures
            r == LlmProvider::stored(name@),
    {
        if str_eq(name, "ollama") {
            Some(LlmProvider::Ollama)
        } else if str_eq(name, "openai-compatible") || str_eq(name, "open-ai-compatible") {
            Some(LlmProvider::OpenAiCompatible)
        } else {
            None
        }
    }
}

/// The local language model that may rewrite dictated text.
#[derive(Debug, PartialEq, Eq)]
pub struct LocalLlmConfig {
    pub enabled: bool,
    pub provider: LlmProvider,
    pub endpoint: String,
    pub model: Option<String>,
    pub timeout_ms: u64,
}

impl Clone for LocalLlmConfig {
    fn clone(&self) -> (r: Self)
        ensures
            r == *self,
    {
        LocalLlmConfig {
            enabled: self.enabled,
            provider: self.provider,
            endpoint: self.endpoint.clone(),
            model: copy_opt(&self.model),
            timeout_ms: self.timeout_ms,
        }
    }
}

impl Default for LocalLlmConfig {
    fn default() -> (r: Self)
        ensures
            !r.enabled,
            r.provider == LlmProvider::Ollama,
            r.endpoint@ == "http://127.0.0.1:11434/api/generate"@,
            r.model is None,
            r.timeout_ms == 10_000,
    {
        LocalLlmConfig {
            enabled: false,
            provider: LlmProvider::Ollama,
            endpoint: "http://127.0.0.1:11434/api/generate".to_owned(),
            model: None,
            timeout_ms: 10_000,
        }
    }
}

/// A configured text mode.
#[derive(Debug, PartialEq, Eq)]
pub struct ModeEntry {
    pub name: String,
    pub description: Option<String>,
    pub deterministic_mode: Option<String>,
    pub llm_instruction: Option<String>,
    pub style_profile: Option<String>,
}

impl Clone for ModeEntry {
    fn clone(&self) -> (r: Self)
        ensures
            r == *self,
    {
        ModeEntry {
            name: self.name.clone(),
            description: copy_opt(&self.description),
            deterministic_mode: copy_opt(&self.deterministic_mode),
            llm_instruction: copy_opt(&self.llm_instruction),
            style_profile: copy_opt(&self.style_profile),
        }
    }
}

/// A dictated text and how it should read.
#[derive(Debug, PartialEq, Eq)]
pub struct StyleExample {
    pub input: String,
    pub output: String,
}

impl Clone for StyleExample {
    fn clone(&self) -> (r: Self)
        ensures
            r == *self,
    {
        StyleExample { input: self.input.clone(), output: self.output.clone() }
    }
}

/// A way of writing, with examples.
#[derive(Debug, Clone, PartialEq, Eq)]
pub struct StyleProfile {
    pub name: String,
    pub summary: String,
    pub examples: Vec<StyleExample>,
}

/// Settings of the local MCP server.
#[derive(Debug, Clone, PartialEq, Eq, Structural)]
pub struct McpConfig {
    /// Whether MCP clients may start a recording. Off by default: an agent must
    /// not turn on the microphone until the user opts in.
    pub allow_start: bool,
}

impl Default for McpConfig {
    fn default() -> (r: Self)
        ensures
            !r.allow_start,
    {
        McpConfig { allow_start: false }
    }
}

/// The only key that `config set` accepts.
pub const MCP_ALLOW_START_KEY: &'static str = "mcp.allow_start";

/// The environment variable that overrides it.
pub const MCP_ALLOW_START_ENV: &'static str = "COMLINK_MCP_ALLOW_START";

/// The whole configuration.
#[derive(Debug, Clone, PartialEq, Eq)]
pub struct Config {
    pub history_enabled: bool,
    pub retention: RetentionConfig,
    pub selected_model: Option<String>,
    pub models: Vec<ModelEntry>,
    pub vocabulary: Vec<VocabularyEntry>,
    pub snippets: Vec<SnippetEntry>,
    pub modes: Vec<ModeEntry>,
    pub style_profiles: Vec<StyleProfile>,
    pub llm: LocalLlmConfig,
    pub mcp: McpConfig,
}

/// The configuration of a user who has set nothing.
pub open spec fn is_default(c: Config) -> bool {
    &&& c.history_enabled
    &&& c.retention == (RetentionConfig { metadata: true, transcripts: true, audio: false })
    &&& c.selected_model is None
    &&& c.models@.len() == 0
    &&& c.vocabulary@.len() == 0
    &&& c.snippets@.len() == 0
    &&& c.modes@.len() == 0
    &&& c.style_profiles@.len() == 0
    &&& !c.llm.enabled
    &&& c.llm.provider == LlmProvider::Ollama
    &&& c.llm.endpoint@ == "http://127.0.0.1:11434/api/generate"@
    &&& c.llm.model is None
    &&& c.llm.timeout_ms == 10_000
    &&& !c.mcp.allow_start
}

impl Default for Config {
    fn default() -> (r: Self)
        ensures
            is_default(r),
    {
        Config {
            history_enabled: true,
            retention: RetentionConfig::default(),
            selected_model: None,
            models: Vec::new(),
            vocabulary: Vec::new(),
            snippets: Vec::new(),
            modes: Vec::new(),
            style_profiles: Vec::new(),
            llm: LocalLlmConfig::default(),
            mcp: McpConfig::default(),
        }
    }
}

/// Where the configuration and the data are stored.
#[derive(Debug, Clone, PartialEq, Eq)]
pub struct ConfigPaths {
    pub home_dir: String,
    pub config_file: String,
    pub data_dir: String,
    pub database_file: String,
    pub audio_dir: String,
}

/// A configuration with its paths and where its values came from.
#[derive(Debug, Clone)]
pub struct ResolvedConfig {
    pub paths: ConfigPaths,
    pub config: Config,
    pub sources: Vec<String>,
}

/// What the command line overrides.
#[derive(Debug, Clone)]
pub struct CliConfigOverrides {
    pub model: Option<String>,
}

impl Default for CliConfigOverrides {
    fn default() -> (r: Self)
        ensures
            r.model is None,
    {
        CliConfigOverrides { model: None }
    }
}

// ---------------------------------------------------------------------------
// Entries found by name
// ---------------------------------------------------------------------------

/// Entries that are found by a phrase, whatever the case of its letters.
pub trait Keyed: Sized {
    /// The phrase of the entry.
    spec fn key(self) -> Seq<char>;

    /// The phrase of the entry.
    fn key_str(&self) -> (r: &str)
        ensures
            r@ == self.key(),
    ;
}

impl Keyed for VocabularyEntry {
    open spec fn key(self) -> Seq<char> {
        self.phrase@
    }

    fn key_str(&self) -> (r: &str) {
        self.phrase.as_str()
    }
}

impl Keyed for SnippetEntry {
    open spec fn key(self) -> Seq<char> {
        self.trigger@
    }

    fn key_str(&self) -> (r: &str) {
        self.trigger.as_str()
    }
}

impl Keyed for ModeEntry {
    open spec fn key(self) -> Seq<char> {
        self.name@
    }

    fn key_str(&self) -> (r: &str) {
        self.name.as_str()
    }
}

impl Keyed for StyleProfile {
    open spec fn key(self) -> Seq<char> {
        self.name@
    }

    fn key_str(&self) -> (r: &str) {
        self.name.as_str()
    }
}

/// Whether position `i` is the first whose entry has the phrase `k`.
pub open spec fn is_key_index<T: Keyed>(s: Seq<T>, k: Seq<char>, i: int) -> bool {
    &&& 0 <= i < s.len()
    &&& eq_ignore_case(s[i].key(), k)
    &&& forall|j: int| 0 <= j < i ==> !eq_ignore_case((#[trigger] s[j]).key(), k)
}

/// The position of the first entry with the phrase `k`.
pub open spec fn key_index<T: Keyed>(s: Seq<T>, k: Seq<char>) -> Option<int> {
    if exists|i: int| is_key_index(s, k, i) {
        Some(choose|i: int| is_key_index(s, k, i))
    } else {
        None
    }
}

/// The position of the first entry with the phrase `k`.
pub fn find_key<T: Keyed>(v: &Vec<T>, k: &str) -> (r: Option<usize>)
    ensures
        match r {
            Some(i) => key_index(v@, k@) == Some(i as int) && is_key_index(v@, k@, i as int),
            None => key_index(v@, k@) is None && forall|j: int|
                0 <= j < v@.len() ==> !eq_ignore_case((#[trigger] v@[j]).key(), k@),
        },
{
    let mut i: usize = 0;
    while i < v.len()
        invariant
            i <= v@.len(),
            forall|j: int| 0 <= j < i ==> !eq_ignore_case((#[trigger] v@[j]).key(), k@),
        decreases v@.len() - i,
    {
        if str_eq_ignore_case(v[i].key_str(), k) {
            assert(is_key_index(v@, k@, i as int));
            assert forall|j: int| is_key_index(v@, k@, j) implies j == i by {
                if j < i {
                    assert(!eq_ignore_case(v@[j].key(), k@));
                }
                if i < j {
                    assert(!eq_ignore_case(v@[i as int].key(), k@));
                }
            }
            return Some(i);
        }
        i += 1;
    }
    None
}

/// The entries with `e` in place of the first one with its phrase, or at the end
/// where there is none.
pub open spec fn upserted<T: Keyed>(s: Seq<T>, e: T) -> Seq<T> {
    match key_index(s, e.key()) {
        Some(i) => s.update(i, e),
        None => s.push(e),
    }
}

/// The entries without those that have the phrase `k`.
pub open spec fn without_key<T: Keyed>(s: Seq<T>, k: Seq<char>) -> Seq<T>
    decreases s.len(),
{
    if s.len() == 0 {
        s
    } else if eq_ignore_case(s.last().key(), k) {
        without_key(s.drop_last(), k)
    } else {
        without_key(s.drop_last(), k).push(s.last())
    }
}

/// The entries with `e` in place of the first one with its phrase, or added.
fn upsert<T: Keyed>(v: Vec<T>, e: T) -> (r: Vec<T>)
    ensures
        r@ == upserted(v@, e),
{
    let mut v = v;
    match find_key(&v, e.key_str()) {
        Some(i) => {
            v.set(i, e);
        },
        None => {
            v.push(e);
        },
    }
    v
}

/// The entries without those that have the phrase `k`.
fn drop_key<T: Keyed>(v: Vec<T>, k: &str) -> (r: Vec<T>)
    ensures
        r@ == without_key(v@, k@),
{
    let mut r: Vec<T> = Vec::new();
    let ghost all = v@;
    for x in it: v
        invariant
            it.seq() == all,
            r@ == without_key(all.take(it.index()), k@),
    {
        let ghost i = it.index();
        assert(all.take(i + 1).drop_last() =~= all.take(i));
        assert(all.take(i + 1).last() == x);
        if !str_eq_ignore_case(x.key_str(), k) {
            r.push(x);
        }
    }
    assert(all.take(all.len() as int) =~= all);
    r
}

/// The length of a text in UTF-8, as `str::len` gives it.
pub open spec fn byte_len(s: Seq<char>) -> usize {
    encode_utf8(s).len() as usize
}

/// The order of phrases: longer ones first, those of one length by their text.
pub open spec fn phrase_precedes(a: Seq<char>, b: Seq<char>) -> bool {
    byte_len(a) > byte_len(b) || (byte_len(a) == byte_len(b) && text_le(lower(a), lower(b)))
}

/// The order of phrases is total and transitive.
pub proof fn lemma_phrase_order(a: Seq<char>, b: Seq<char>, c: Seq<char>)
    ensures
        phrase_precedes(a, b) || phrase_precedes(b, a),
        phrase_precedes(a, b) && phrase_precedes(b, c) ==> phrase_precedes(a, c),
{
    lemma_text_le_total(lower(a), lower(b));
    if text_le(lower(a), lower(b)) && text_le(lower(b), lower(c)) {
        lemma_text_le_transitive(lower(a), lower(b), lower(c));
    }
}

/// Whether phrase `a` may stand before phrase `b`.
fn phrase_comes_before(a: &str, b: &str) -> (r: bool)
    ensures
        r == phrase_precedes(a@, b@),
{
    let x: usize = a.len();
    let y: usize = b.len();
    x > y || (x == y && str_le(&to_lower(a), &to_lower(b)))
}

impl Ranked for VocabularyEntry {
    open spec fn precedes(self, other: Self) -> bool {
        phrase_precedes(self.phrase@, other.phrase@)
    }

    proof fn lemma_order(a: Self, b: Self, c: Self) {
        lemma_phrase_order(a.phrase@, b.phrase@, c.phrase@);
    }

    fn comes_before(&self, other: &Self) -> (r: bool) {
        phrase_comes_before(self.phrase.as_str(), other.phrase.as_str())
    }
}

impl Ranked for SnippetEntry {
    open spec fn precedes(self, other: Self) -> bool {
        phrase_precedes(self.trigger@, other.trigger@)
    }

    proof fn lemma_order(a: Self, b: Self, c: Self) {
        lemma_phrase_order(a.trigger@, b.trigger@, c.trigger@);
    }

    fn comes_before(&self, other: &Self) -> (r: bool) {
        phrase_comes_before(self.trigger.as_str(), other.trigger.as_str())
    }
}

impl Ranked for ModeEntry {
    open spec fn precedes(self, other: Self) -> bool {
        phrase_precedes(self.name@, other.name@)
    }

    proof fn lemma_order(a: Self, b: Self, c: Self) {
        lemma_phrase_order(a.name@, b.name@, c.name@);
    }

    fn comes_before(&self, other: &Self) -> (r: bool) {
        phrase_comes_before(self.name.as_str(), other.name.as_str())
    }
}

impl Ranked for StyleProfile {
    open spec fn precedes(self, other: Self) -> bool {
        phrase_precedes(self.name@, other.name@)
    }

    proof fn lemma_order(a: Self, b: Self, c: Self) {
        lemma_phrase_order(a.name@, b.name@, c.name@);
    }

    fn comes_before(&self, other: &Self) -> (r: bool) {
        phrase_comes_before(self.name.as_str(), other.name.as_str())
    }
}

/// Entries that stand in the order of their phrases.
pub trait Phrased: Keyed + Ranked {
    /// The order of the entries is that of their phrases.
    proof fn lemma_by_phrase(a: Self, b: Self)
        ensures
            a.precedes(b) == phrase_precedes(a.key(), b.key()),
    ;
}

impl Phrased for VocabularyEntry {
    proof fn lemma_by_phrase(a: Self, b: Self) {
    }
}

impl Phrased for SnippetEntry {
    proof fn lemma_by_phrase(a: Self, b: Self) {
    }
}

impl Phrased for ModeEntry {
    proof fn lemma_by_phrase(a: Self, b: Self) {
    }
}

impl Phrased for StyleProfile {
    proof fn lemma_by_phrase(a: Self, b: Self) {
    }
}

/// Adds a vocabulary entry, or replaces the one with its phrase; the list is
/// sorted by phrase.
pub fn upsert_vocabulary(config: &mut Config, phrase: String, replacement: String)
    ensures
        final(config).vocabulary@ == ranked(
            upserted(old(config).vocabulary@, (VocabularyEntry { phrase, replacement })),
        ),
        *final(config) == (Config { vocabulary: final(config).vocabulary, ..*old(config) }),
{
    let mut taken: Vec<VocabularyEntry> = Vec::new();
    std::mem::swap(&mut taken, &mut config.vocabulary);
    config.vocabulary = sort_ranked(upsert(taken, VocabularyEntry { phrase, replacement }));
}

/// Drops the vocabulary entries with a phrase; tells whether there were any.
pub fn remove_vocabulary(config: &mut Config, phrase: &str) -> (r: bool)
    ensures
        final(config).vocabulary@ == without_key(old(config).vocabulary@, phrase@),
        *final(config) == (Config { vocabulary: final(config).vocabulary, ..*old(config) }),
        r == (final(config).vocabulary@.len() != old(config).vocabulary@.len()),
{
    let before: usize = config.vocabulary.len();
    let mut taken: Vec<VocabularyEntry> = Vec::new();
    std::mem::swap(&mut taken, &mut config.vocabulary);
    config.vocabulary = drop_key(taken, phrase);
    config.vocabulary.len() != before
}

/// Adds a snippet, or replaces the one with its trigger; the list is sorted by
/// trigger.
pub fn upsert_snippet(config: &mut Config, trigger: String, body: String)
    ensures
        final(config).snippets@ == ranked(
            upserted(old(config).snippets@, (SnippetEntry { trigger, body })),
        ),
        *final(config) == (Config { snippets: final(config).snippets, ..*old(config) }),
{
    let mut taken: Vec<SnippetEntry> = Vec::new();
    std::mem::swap(&mut taken, &mut config.snippets);
    config.snippets = sort_ranked(upsert(taken, SnippetEntry { trigger, body }));
}

/// Drops the snippets with a trigger; tells whether there were any.
pub fn remove_snippet(config: &mut Config, trigger: &str) -> (r: bool)
    ensures
        final(config).snippets@ == without_key(old(config).snippets@, trigger@),
        *final(config) == (Config { snippets: final(config).snippets, ..*old(config) }),
        r == (final(config).snippets@.len() != old(config).snippets@.len()),
{
    let before: usize = config.snippets.len();
    let mut taken: Vec<SnippetEntry> = Vec::new();
    std::mem::swap(&mut taken, &mut config.snippets);
    config.snippets = drop_key(taken, trigger);
    config.snippets.len() != before
}

/// Adds a mode, or replaces the one with its name; the list is sorted by name.
pub fn upsert_mode(
    config: &mut Config,
    name: String,
    description: Option<String>,
    deterministic_mode: Option<String>,
    llm_instruction: Option<String>,
    style_profile: Option<String>,
)
    ensures
        final(config).modes@ == ranked(
            upserted(
                old(config).modes@,
                (ModeEntry {
                    name,
                    description,
                    deterministic_mode,
                    llm_instruction,
                    style_profile,
                }),
            ),
        ),
        *final(config) == (Config { modes: final(config).modes, ..*old(config) }),
{
    let mut taken: Vec<ModeEntry> = Vec::new();
    std::mem::swap(&mut taken, &mut config.modes);
    let entry = ModeEntry {
        name,
        description,
        deterministic_mode,
        llm_instruction,
        style_profile,
    };
    config.modes = sort_ranked(upsert(taken, entry));
}

/// Drops the modes with a name; tells whether there were any.
pub fn remove_mode(config: &mut Config, name: &str) -> (r: bool)
    ensures
        final(config).modes@ == without_key(old(config).modes@, name@),
        *final(config) == (Config { modes: final(config).modes, ..*old(config) }),
        r == (final(config).modes@.len() != old(config).modes@.len()),
{
    let before: usize = config.modes.len();
    let mut taken: Vec<ModeEntry> = Vec::new();
    std::mem::swap(&mut taken, &mut config.modes);
    config.modes = drop_key(taken, name);
    config.modes.len() != before
}

/// Adds a style profile, or replaces the one with its name; the list is sorted
/// by name.
pub fn upsert_style_profile(config: &mut Config, profile: StyleProfile)
    ensures
        final(config).style_profiles@ == ranked(upserted(old(config).style_profiles@, profile)),
        *final(config) == (Config { style_profiles: final(config).style_profiles, ..*old(config) }),
{
    let mut taken: Vec<StyleProfile> = Vec::new();
    std::mem::swap(&mut taken, &mut config.style_profiles);
    config.style_profiles = sort_ranked(upsert(taken, profile));
}

/// The style profile with a name, whatever the case of its letters.
pub fn style_profile<'a>(config: &'a Config, name: &str) -> (r: Option<&'a StyleProfile>)
    ensures
        match key_index(config.style_profiles@, name@) {
            Some(i) => r == Some(&config.style_profiles@[i]),
            None => r is None,
        },
{
    match find_key(&config.style_profiles, name) {
        Some(i) => Some(&config.style_profiles[i]),
        None => None,
    }
}

// ---------------------------------------------------------------------------
// Laws of the entry lists
// ---------------------------------------------------------------------------

/// Dropping entries leaves just those with another phrase.
proof fn lemma_without_key<T: Keyed>(s: Seq<T>, k: Seq<char>)
    ensures
        without_key(s, k).len() <= s.len(),
        forall|i: int|
            0 <= i < without_key(s, k).len() ==> !eq_ignore_case(
                (#[trigger] without_key(s, k)[i]).key(),
                k,
            ) && s.contains(without_key(s, k)[i]),
        without_key(s, k).len() == s.len() <==> forall|i: int|
            0 <= i < s.len() ==> !eq_ignore_case((#[trigger] s[i]).key(), k),
    decreases s.len(),
{
    if s.len() > 0 {
        let t = s.drop_last();
        lemma_without_key(t, k);
        let w = without_key(s, k);
        assert forall|i: int| 0 <= i < w.len() implies !eq_ignore_case((#[trigger] w[i]).key(), k)
            && s.contains(w[i]) by {
            if i < without_key(t, k).len() {
                assert(w[i] == without_key(t, k)[i]);
                assert(t.contains(w[i]));
                let j = choose|j: int| 0 <= j < t.len() && t[j] == w[i];
                assert(s[j] == w[i]);
            } else {
                assert(w[i] == s[s.len() - 1]);
            }
        }
        if eq_ignore_case(s.last().key(), k) {
            assert(eq_ignore_case(s[s.len() - 1].key(), k));
        } else {
            if forall|i: int| 0 <= i < t.len() ==> !eq_ignore_case((#[trigger] t[i]).key(), k) {
                assert forall|i: int| 0 <= i < s.len() implies !eq_ignore_case(
                    (#[trigger] s[i]).key(),
                    k,
                ) by {
                    if i < t.len() {
                        assert(s[i] == t[i]);
                    }
                }
            } else {
                let i = choose|i: int|
                    0 <= i < t.len() && eq_ignore_case((#[trigger] t[i]).key(), k);
                assert(s[i] == t[i]);
            }
        }
    }
}

/// After entries with a phrase are removed none with it is left, in any case of
/// its letters, and removal says that it changed something exactly where one was
/// there.
pub proof fn law_removed_entries_are_gone<T: Keyed>(s: Seq<T>, k: Seq<char>)
    ensures
        key_index(without_key(s, k), k) is None,
        without_key(s, k).len() != s.len() <==> key_index(s, k) is Some,
{
    lemma_without_key(s, k);
    let w = without_key(s, k);
    assert forall|i: int| !is_key_index(w, k, i) by {
        if 0 <= i < w.len() {
            assert(!eq_ignore_case(w[i].key(), k));
        }
    }
    lemma_key_index_exists(s, k);
}

/// A phrase has a first entry where it has an entry at all.
pub proof fn lemma_key_index_exists<T: Keyed>(s: Seq<T>, k: Seq<char>)
    ensures
        key_index(s, k) is Some <==> exists|i: int|
            0 <= i < s.len() && eq_ignore_case((#[trigger] s[i]).key(), k),
{
    if exists|i: int| 0 <= i < s.len() && eq_ignore_case((#[trigger] s[i]).key(), k) {
        let i = choose|i: int| 0 <= i < s.len() && eq_ignore_case((#[trigger] s[i]).key(), k);
        lemma_first_key(s, k, i);
    } else {
        assert forall|i: int| !is_key_index(s, k, i) by {
            if 0 <= i < s.len() {
                assert(!eq_ignore_case(s[i].key(), k));
            }
        }
    }
}

/// Below any entry with the phrase there is a first one.
proof fn lemma_first_key<T: Keyed>(s: Seq<T>, k: Seq<char>, n: int)
    requires
        0 <= n < s.len(),
        eq_ignore_case(s[n].key(), k),
    ensures
        exists|i: int| is_key_index(s, k, i),
    decreases n,
{
    if exists|j: int| 0 <= j < n && eq_ignore_case((#[trigger] s[j]).key(), k) {
        let j = choose|j: int| 0 <= j < n && eq_ignore_case((#[trigger] s[j]).key(), k);
        lemma_first_key(s, k, j);
    } else {
        assert(is_key_index(s, k, n));
    }
}

/// Changing the case of ASCII letters keeps the length in UTF-8.
proof fn lemma_lower_byte_len(s: Seq<char>)
    ensures
        encode_utf8(lower(s)).len() == encode_utf8(s).len(),
    decreases s.len(),
{
    if s.len() > 0 {
        lemma_lower_byte_len(s.drop_first());
        assert(lower(s).drop_first() =~= lower(s.drop_first()));
    }
}

/// Entries with one phrase rank alike.
proof fn lemma_same_phrase<T: Phrased>(a: T, b: T)
    requires
        eq_ignore_case(a.key(), b.key()),
    ensures
        a.precedes(b),
{
    T::lemma_by_phrase(a, b);
    lemma_lower_byte_len(a.key());
    lemma_lower_byte_len(b.key());
    lemma_text_le_reflexive(lower(a.key()));
}

/// The entries that have the phrase `k`.
spec fn with_key<T: Keyed>(s: Seq<T>, k: Seq<char>) -> Seq<T>
    decreases s.len(),
{
    if s.len() == 0 {
        s
    } else if eq_ignore_case(s.last().key(), k) {
        with_key(s.drop_last(), k).push(s.last())
    } else {
        with_key(s.drop_last(), k)
    }
}

/// Putting an entry in its place keeps the sequence of those with a phrase.
proof fn lemma_insert_keeps_sequence<T: Phrased>(s: Seq<T>, x: T, k: Seq<char>)
    ensures
        with_key(insert_ranked(s, x), k) == with_key(s.push(x), k),
    decreases s.len(),
{
    reveal_with_fuel(with_key, 2);
    assert(s.push(x).drop_last() =~= s);
    if s.len() == 0 {
        assert(seq![x] =~= s.push(x));
    } else if !s.last().precedes(x) {
        let t = s.drop_last();
        lemma_insert_keeps_sequence(t, x, k);
        assert(insert_ranked(s, x).drop_last() =~= insert_ranked(t, x));
        assert(t.push(x).drop_last() =~= t);
        if eq_ignore_case(x.key(), k) && eq_ignore_case(s.last().key(), k) {
            lemma_same_phrase(s.last(), x);
        }
    }
}

/// Sorting keeps the sequence of the entries with a phrase.
proof fn lemma_ranked_keeps_sequence<T: Phrased>(s: Seq<T>, k: Seq<char>)
    ensures
        with_key(ranked(s), k) == with_key(s, k),
    decreases s.len(),
{
    if s.len() > 0 {
        let t = s.drop_last();
        lemma_ranked_keeps_sequence(t, k);
        lemma_insert_keeps_sequence(ranked(t), s.last(), k);
        assert(ranked(t).push(s.last()).drop_last() =~= ranked(t));
    }
}

/// The first entry with a phrase comes first of those that have it.
proof fn lemma_first_with_key<T: Keyed>(s: Seq<T>, k: Seq<char>, i: int)
    requires
        is_key_index(s, k, i),
    ensures
        with_key(s, k).len() > 0,
        with_key(s, k)[0] == s[i],
    decreases s.len(),
{
    let t = s.drop_last();
    if i < t.len() {
        assert(is_key_index(t, k, i));
        lemma_first_with_key(t, k, i);
    } else {
        lemma_no_key(t, k);
    }
}

/// Where no entry has a phrase, none is left of those that have it.
proof fn lemma_no_key<T: Keyed>(s: Seq<T>, k: Seq<char>)
    requires
        forall|i: int| 0 <= i < s.len() ==> !eq_ignore_case((#[trigger] s[i]).key(), k),
    ensures
        with_key(s, k).len() == 0,
    decreases s.len(),
{
    if s.len() > 0 {
        assert(!eq_ignore_case(s[s.len() - 1].key(), k));
        lemma_no_key(s.drop_last(), k);
    }
}

/// An entry that is put in has its phrase found at its place.
proof fn lemma_upserted_key<T: Keyed>(s: Seq<T>, e: T)
    ensures
        exists|i: int| #[trigger] is_key_index(upserted(s, e), e.key(), i) && upserted(s, e)[i] == e,
{
    let u = upserted(s, e);
    match key_index(s, e.key()) {
        Some(i) => {
            assert(is_key_index(s, e.key(), i));
            assert(is_key_index(u, e.key(), i));
        },
        None => {
            lemma_key_index_exists(s, e.key());
            assert(is_key_index(u, e.key(), s.len() as int));
        },
    }
}

/// After an entry is put in, the sorted list has it, and finds it first under its
/// phrase, in any case of its letters. The list is in order: longer phrases first, those
/// of one length by their text. Putting the entry in again changes nothing.
pub proof fn law_upserted_entry_is_listed<T: Phrased>(s: Seq<T>, e: T)
    ensures
        is_ranked(ranked(upserted(s, e))),
        ranked(upserted(s, e)).len() == if key_index(s, e.key()) is Some {
            s.len()
        } else {
            s.len() + 1
        },
        key_index(ranked(upserted(s, e)), e.key()) matches Some(i) && 0 <= i < ranked(
            upserted(s, e),
        ).len() && ranked(upserted(s, e))[i] == e,
        ranked(upserted(ranked(upserted(s, e)), e)) == ranked(upserted(s, e)),
{
    let u = upserted(s, e);
    let l = ranked(u);
    let k = e.key();
    lemma_ranked(u);
    if let Some(i) = key_index(s, k) {
        assert(is_key_index(s, k, i));
    }
    lemma_upserted_key(s, e);
    let at = choose|i: int| #[trigger] is_key_index(u, k, i) && u[i] == e;
    lemma_first_with_key(u, k, at);
    lemma_ranked_keeps_sequence(u, k);
    if forall|i: int| 0 <= i < l.len() ==> !eq_ignore_case((#[trigger] l[i]).key(), k) {
        lemma_no_key(l, k);
    }
    lemma_key_index_exists(l, k);
    let found = key_index(l, k)->Some_0;
    assert(is_key_index(l, k, found));
    lemma_first_with_key(l, k, found);
    assert(upserted(l, e) =~= l);
    lemma_ranked_is_settled(l);
}

// ---------------------------------------------------------------------------
// Models
// ---------------------------------------------------------------------------

/// Whether position `i` is the first whose model has this name.
pub open spec fn is_model_index(s: Seq<ModelEntry>, name: Seq<char>, i: int) -> bool {
    0 <= i < s.len() && s[i].name@ == name && forall|j: int|
        0 <= j < i ==> (#[trigger] s[j]).name@ != name
}

/// The position of the first model with a name.
pub open spec fn model_index(s: Seq<ModelEntry>, name: Seq<char>) -> Option<int> {
    if exists|i: int| is_model_index(s, name, i) {
        Some(choose|i: int| is_model_index(s, name, i))
    } else {
        None
    }
}

/// The position of the first model with a name.
fn find_model(v: &Vec<ModelEntry>, name: &str) -> (r: Option<usize>)
    ensures
        match r {
            Some(i) => model_index(v@, name@) == Some(i as int) && i < v@.len(),
            None => model_index(v@, name@) is None,
        },
{
    let mut i: usize = 0;
    while i < v.len()
        invariant
            i <= v@.len(),
            forall|j: int| 0 <= j < i ==> (#[trigger] v@[j]).name@ != name@,
        decreases v@.len() - i,
    {
        if str_eq(v[i].name.as_str(), name) {
            assert(is_model_index(v@, name@, i as int));
            return Some(i);
        }
        i += 1;
    }
    None
}

/// The path of the selected model, where the registry has one of that name.
pub open spec fn model_path(c: Config) -> Option<Seq<char>> {
    match c.selected_model {
        Some(name) => match model_index(c.models@, name@) {
            Some(i) => Some(c.models@[i].path@),
            None => None,
        },
        None => None,
    }
}

/// The path of the selected model.
pub fn selected_model_path(config: &Config) -> (r: Option<String>)
    ensures
        opt_text(r) == model_path(*config),
{
    match &config.selected_model {
        Some(name) => match find_model(&config.models, name.as_str()) {
            Some(i) => Some(config.models[i].path.clone()),
            None => None,
        },
        None => None,
    }
}

/// The models with the path set for a name, or a new one at the end.
pub open spec fn named_models(
    s: Seq<ModelEntry>,
    name: Seq<char>,
    path: String,
    r: Seq<ModelEntry>,
) -> bool {
    match model_index(s, name) {
        Some(i) => r == s.update(i, (ModelEntry { path, ..s[i] })),
        None => {
            &&& r.len() == s.len() + 1
            &&& r.drop_last() == s
            &&& r.last().name@ == name
            &&& r.last().path == path
            &&& !r.last().selected
        },
    }
}

/// Sets the path of the model with a name, or adds it.
fn upsert_named_model(models: Vec<ModelEntry>, name: &str, path: String) -> (r: Vec<ModelEntry>)
    ensures
        named_models(models@, name@, path, r@),
{
    let mut v = models;
    match find_model(&v, name) {
        Some(i) => {
            let entry = ModelEntry { name: v[i].name.clone(), path, selected: v[i].selected };
            v.set(i, entry);
        },
        None => {
            v.push(ModelEntry { name: name.to_owned(), path, selected: false });
            assert(v@.drop_last() =~= models@);
        },
    }
    v
}

/// The models with just the selected one marked.
pub open spec fn marked(s: Seq<ModelEntry>, selected: Option<String>) -> Seq<ModelEntry> {
    Seq::new(
        s.len(),
        |i: int|
            ModelEntry { selected: opt_text(selected) == Some(s[i].name@), ..s[i] },
    )
}

/// Marks just the selected model.
fn mark_selected_model(models: Vec<ModelEntry>, selected: &Option<String>) -> (r: Vec<ModelEntry>)
    ensures
        r@ == marked(models@, *selected),
{
    let mut r: Vec<ModelEntry> = Vec::new();
    let ghost all = models@;
    for entry in it: models
        invariant
            it.seq() == all,
            r@ == marked(all, *selected).take(it.index()),
    {
        let is_selected = match selected {
            Some(name) => str_eq(name.as_str(), entry.name.as_str()),
            None => false,
        };
        r.push(ModelEntry { name: entry.name, path: entry.path, selected: is_selected });
        assert(r@ =~= marked(all, *selected).take(it.index() + 1));
    }
    assert(marked(all, *selected).take(all.len() as int) =~= marked(all, *selected));
    r
}

/// Selects a model under a name, setting its path.
pub fn select_model(resolved: &mut ResolvedConfig, name: &str, path: String)
    ensures
        opt_text(final(resolved).config.selected_model) == Some(name@),
        exists|m: Seq<ModelEntry>|
            named_models(old(resolved).config.models@, name@, path, m)
                && final(resolved).config.models@ == #[trigger] marked(
                m,
                final(resolved).config.selected_model,
            ),
        *final(resolved) == (ResolvedConfig {
            config: Config {
                models: final(resolved).config.models,
                selected_model: final(resolved).config.selected_model,
                ..old(resolved).config
            },
            ..*old(resolved)
        }),
{
    let mut taken: Vec<ModelEntry> = Vec::new();
    std::mem::swap(&mut taken, &mut resolved.config.models);
    let models = upsert_named_model(taken, name, path);
    let ghost m = models@;
    resolved.config.selected_model = Some(name.to_owned());
    resolved.config.models = mark_selected_model(models, &resolved.config.selected_model);
    assert(resolved.config.models@ == marked(m, resolved.config.selected_model));
}

/// A model name that is never saved: it stands for a model named by the
/// environment or by the command line.
pub open spec fn is_runtime_name(name: Seq<char>) -> bool {
    name == "env"@ || name == "cli"@
}

/// The models that are saved.
pub open spec fn persistent_models(s: Seq<ModelEntry>) -> Seq<ModelEntry>
    decreases s.len(),
{
    if s.len() == 0 {
        s
    } else if is_runtime_name(s.last().name@) {
        persistent_models(s.drop_last())
    } else {
        persistent_models(s.drop_last()).push(s.last())
    }
}

/// The selection that is saved.
pub open spec fn persistent_selection(o: Option<String>) -> Option<String> {
    match o {
        Some(name) => if is_runtime_name(name@) {
            None
        } else {
            Some(name)
        },
        None => None,
    }
}

/// Whether a model name is never saved.
fn is_runtime_model(name: &str) -> (r: bool)
    ensures
        r == is_runtime_name(name@),
{
    str_eq(name, "env") || str_eq(name, "cli")
}

/// Drops the models, and a selection, that are never saved.
fn remove_runtime_models(config: Config) -> (r: Config)
    ensures
        r.models@ == persistent_models(config.models@),
        r.selected_model == persistent_selection(config.selected_model),
        r == (Config { models: r.models, selected_model: r.selected_model, ..config }),
{
    let mut config = config;
    let mut taken: Vec<ModelEntry> = Vec::new();
    std::mem::swap(&mut taken, &mut config.models);
    let ghost all = taken@;
    let mut models: Vec<ModelEntry> = Vec::new();
    for entry in it: taken
        invariant
            it.seq() == all,
            models@ == persistent_models(all.take(it.index())),
    {
        let ghost i = it.index();
        assert(all.take(i + 1).drop_last() =~= all.take(i));
        assert(all.take(i + 1).last() == entry);
        if !is_runtime_model(entry.name.as_str()) {
            models.push(entry);
        }
    }
    assert(all.take(all.len() as int) =~= all);
    config.models = models;
    let drop_selection = match &config.selected_model {
        Some(name) => is_runtime_model(name.as_str()),
        None => false,
    };
    if drop_selection {
        config.selected_model = None;
    }
    config
}

/// The configuration as it is saved: without the models of the environment and
/// of the command line, and with the selected model marked.
pub fn persistent_form(config: Config) -> (r: Config)
    ensures
        r.selected_model == persistent_selection(config.selected_model),
        r.models@ == marked(persistent_models(config.models@), r.selected_model),
        r == (Config { models: r.models, selected_model: r.selected_model, ..config }),
{
    let mut kept = remove_runtime_models(config);
    let mut taken: Vec<ModelEntry> = Vec::new();
    std::mem::swap(&mut taken, &mut kept.models);
    kept.models = mark_selected_model(taken, &kept.selected_model);
    kept
}

/// Saving drops exactly the models named by the environment or the command
/// line: none is left, and no other is lost.
pub proof fn law_saved_models_are_persistent(s: Seq<ModelEntry>)
    ensures
        forall|i: int|
            0 <= i < persistent_models(s).len() ==> !is_runtime_name(
                (#[trigger] persistent_models(s)[i]).name@,
            ) && s.contains(persistent_models(s)[i]),
        forall|i: int|
            0 <= i < s.len() && !is_runtime_name((#[trigger] s[i]).name@)
                ==> persistent_models(s).contains(s[i]),
    decreases s.len(),
{
    if s.len() > 0 {
        let t = s.drop_last();
        law_saved_models_are_persistent(t);
        let w = persistent_models(s);
        let v = persistent_models(t);
        assert forall|i: int| 0 <= i < w.len() implies !is_runtime_name((#[trigger] w[i]).name@)
            && s.contains(w[i]) by {
            if i < v.len() {
                assert(w[i] == v[i]);
                let j = choose|j: int| 0 <= j < t.len() && t[j] == v[i];
                assert(s[j] == w[i]);
            } else {
                assert(w[i] == s[s.len() - 1]);
            }
        }
        assert forall|i: int| 0 <= i < s.len() && !is_runtime_name((#[trigger] s[i]).name@) implies
            w.contains(s[i]) by {
            if i < t.len() {
                assert(t[i] == s[i]);
                let j = choose|j: int| 0 <= j < v.len() && v[j] == t[i];
                assert(w[j] == s[i]);
            } else {
                assert(w[w.len() - 1] == s[i]);
            }
        }
    }
}

// ---------------------------------------------------------------------------
// Paths
// ---------------------------------------------------------------------------

/// The environment that decides where files are stored.
#[derive(Debug)]
pub struct PathEnvironment {
    /// `COMLINK_HOME`
    pub comlink_home: Option<String>,
    /// `COMLINK_DATA_DIR`
    pub data_dir: Option<String>,
    /// `XDG_CONFIG_HOME`
    pub xdg_config_home: Option<String>,
    /// `HOME`
    pub home: Option<String>,
    /// Whether the system is macOS.
    pub macos: bool,
}

/// The directory of the configuration, unless `HOME` is needed and missing.
pub open spec fn home_of(env: PathEnvironment) -> Option<Seq<char>> {
    match env.comlink_home {
        Some(path) => Some(path@),
        None => if env.macos {
            match env.home {
                Some(home) => Some(
                    joined(joined(joined(home@, "Library"@), "Application Support"@), "comlink"@),
                ),
                None => None,
            }
        } else {
            match env.xdg_config_home {
                Some(path) => Some(joined(path@, "comlink"@)),
                None => match env.home {
                    Some(home) => Some(joined(joined(home@, ".config"@), "comlink"@)),
                    None => None,
                },
            }
        },
    }
}

/// Where the configuration and the data are stored. Fails where `HOME` is needed
/// and not set.
pub fn resolve_paths(env: PathEnvironment) -> (r: Result<ConfigPaths, ComlinkError>)
    ensures
        match home_of(env) {
            Some(home) => r matches Ok(p) && {
                let data = match env.data_dir {
                    Some(d) => d@,
                    None => joined(home, "data"@),
                };
                &&& p.home_dir@ == home
                &&& p.config_file@ == joined(home, "config.json"@)
                &&& p.data_dir@ == data
                &&& p.database_file@ == joined(data, "history.sqlite3"@)
                &&& p.audio_dir@ == joined(data, "audio"@)
            },
            None => r matches Err(ComlinkError::ConfigHomeMissing(name)) && name@ == "HOME"@,
        },
{
    let home_dir = match env.comlink_home {
        Some(path) => path,
        None => if env.macos {
            match env.home {
                Some(home) => join_path(
                    &join_path(&join_path(&home, "Library"), "Application Support"),
                    "comlink",
                ),
                None => {
                    return Err(ComlinkError::ConfigHomeMissing("HOME"));
                },
            }
        } else {
            match env.xdg_config_home {
                Some(path) => join_path(&path, "comlink"),
                None => match env.home {
                    Some(home) => join_path(&join_path(&home, ".config"), "comlink"),
                    None => {
                        return Err(ComlinkError::ConfigHomeMissing("HOME"));
                    },
                },
            }
        },
    };
    let data_dir = match env.data_dir {
        Some(path) => path,
        None => join_path(&home_dir, "data"),
    };
    Ok(
        ConfigPaths {
            config_file: join_path(&home_dir, "config.json"),
            database_file: join_path(&data_dir, "history.sqlite3"),
            audio_dir: join_path(&data_dir, "audio"),
            data_dir,
            home_dir,
        },
    )
}

// ---------------------------------------------------------------------------
// The configuration file
// ---------------------------------------------------------------------------

/// The retention section of a configuration file.
#[derive(Debug)]
pub struct FileRetentionConfig {
    pub metadata: Option<bool>,
    pub transcripts: Option<bool>,
    pub audio: Option<bool>,
}

/// A model in a configuration file.
#[derive(Debug)]
pub struct FileModelEntry {
    pub name: String,
    pub path: String,
}

/// The language model section of a configuration file.
#[derive(Debug)]
pub struct FileLocalLlmConfig {
    pub enabled: Option<bool>,
    pub provider: Option<LlmProvider>,
    pub endpoint: Option<String>,
    pub model: Option<String>,
    pub timeout_ms: Option<u64>,
}

/// A configuration file: every value may be left out.
#[derive(Debug)]
pub struct FileConfig {
    pub history_enabled: Option<bool>,
    pub retention: Option<FileRetentionConfig>,
    pub selected_model: Option<String>,
    pub models: Option<Vec<FileModelEntry>>,
    pub vocabulary: Option<Vec<VocabularyEntry>>,
    pub snippets: Option<Vec<SnippetEntry>>,
    pub modes: Option<Vec<ModeEntry>>,
    pub style_profiles: Option<Vec<StyleProfile>>,
    pub llm: Option<FileLocalLlmConfig>,
    /// `mcp.allow_start`
    pub mcp_allow_start: Option<bool>,
}

/// The value given, or the one in force.
pub open spec fn given_or<T>(given: Option<T>, current: T) -> T {
    match given {
        Some(x) => x,
        None => current,
    }
}

/// The value given, or the optional one in force.
pub open spec fn given_or_kept<T>(given: Option<T>, current: Option<T>) -> Option<T> {
    match given {
        Some(x) => Some(x),
        None => current,
    }
}

/// The language model settings once a file's section is merged into them.
pub open spec fn merged_llm(c: LocalLlmConfig, f: FileLocalLlmConfig) -> LocalLlmConfig {
    LocalLlmConfig {
        enabled: given_or(f.enabled, c.enabled),
        provider: given_or(f.provider, c.provider),
        endpoint: given_or(f.endpoint, c.endpoint),
        model: given_or_kept(f.model, c.model),
        timeout_ms: given_or(f.timeout_ms, c.timeout_ms),
    }
}

/// The retention settings once a file's section is merged into them.
pub open spec fn merged_retention(c: RetentionConfig, f: FileRetentionConfig) -> RetentionConfig {
    RetentionConfig {
        metadata: given_or(f.metadata, c.metadata),
        transcripts: given_or(f.transcripts, c.transcripts),
        audio: given_or(f.audio, c.audio),
    }
}

/// The models of a file, none of them marked yet.
pub open spec fn file_models(m: Seq<FileModelEntry>) -> Seq<ModelEntry> {
    Seq::new(
        m.len(),
        |i: int| ModelEntry { name: m[i].name, path: m[i].path, selected: false },
    )
}

/// The list in force once a file's list is merged: a given list replaces it, in
/// order.
pub open spec fn merged_list<T: Ranked>(given: Option<Vec<T>>, current: Seq<T>) -> Seq<T> {
    match given {
        Some(v) => ranked(v@),
        None => current,
    }
}

/// Whether `r` is `c` with the values of a file taken over.
pub open spec fn is_file_merge(c: Config, f: FileConfig, r: Config) -> bool {
    &&& r.history_enabled == given_or(f.history_enabled, c.history_enabled)
    &&& r.retention == match f.retention {
        Some(x) => merged_retention(c.retention, x),
        None => c.retention,
    }
    &&& r.selected_model == given_or_kept(f.selected_model, c.selected_model)
    &&& r.models@ == match f.models {
        Some(m) => file_models(m@),
        None => c.models@,
    }
    &&& r.vocabulary@ == merged_list(f.vocabulary, c.vocabulary@)
    &&& r.snippets@ == merged_list(f.snippets, c.snippets@)
    &&& r.modes@ == merged_list(f.modes, c.modes@)
    &&& r.style_profiles@ == merged_list(f.style_profiles, c.style_profiles@)
    &&& r.llm == match f.llm {
        Some(x) => merged_llm(c.llm, x),
        None => c.llm,
    }
    &&& r.mcp.allow_start == given_or(f.mcp_allow_start, c.mcp.allow_start)
}

/// Takes over the language model settings that a file gives.
fn merge_file_llm_config(c: LocalLlmConfig, f: FileLocalLlmConfig) -> (r: LocalLlmConfig)
    ensures
        r == merged_llm(c, f),
{
    LocalLlmConfig {
        enabled: match f.enabled {
            Some(x) => x,
            None => c.enabled,
        },
        provider: match f.provider {
            Some(x) => x,
            None => c.provider,
        },
        endpoint: match f.endpoint {
            Some(x) => x,
            None => c.endpoint,
        },
        model: match f.model {
            Some(x) => Some(x),
            None => c.model,
        },
        timeout_ms: match f.timeout_ms {
            Some(x) => x,
            None => c.timeout_ms,
        },
    }
}

/// The models of a file, none of them marked yet.
fn models_from_file(m: Vec<FileModelEntry>) -> (r: Vec<ModelEntry>)
    ensures
        r@ == file_models(m@),
{
    let mut r: Vec<ModelEntry> = Vec::new();
    let ghost all = m@;
    for entry in it: m
        invariant
            it.seq() == all,
            r@ == file_models(all).take(it.index()),
    {
        r.push(ModelEntry { name: entry.name, path: entry.path, selected: false });
        assert(r@ =~= file_models(all).take(it.index() + 1));
    }
    assert(file_models(all).take(all.len() as int) =~= file_models(all));
    r
}

/// A given list in order, or the one in force.
fn merge_list<T: Ranked>(given: Option<Vec<T>>, current: Vec<T>) -> (r: Vec<T>)
    ensures
        r@ == merged_list(given, current@),
{
    match given {
        Some(v) => sort_ranked(v),
        None => current,
    }
}

/// Takes over the values that a file gives.
pub fn merge_file_config(c: Config, f: FileConfig) -> (r: Config)
    ensures
        is_file_merge(c, f, r),
{
    Config {
        history_enabled: match f.history_enabled {
            Some(x) => x,
            None => c.history_enabled,
        },
        retention: match f.retention {
            Some(x) => RetentionConfig {
                metadata: match x.metadata {
                    Some(b) => b,
                    None => c.retention.metadata,
                },
                transcripts: match x.transcripts {
                    Some(b) => b,
                    None => c.retention.transcripts,
                },
                audio: match x.audio {
                    Some(b) => b,
                    None => c.retention.audio,
                },
            },
            None => c.retention,
        },
        selected_model: match f.selected_model {
            Some(x) => Some(x),
            None => c.selected_model,
        },
        models: match f.models {
            Some(m) => models_from_file(m),
            None => c.models,
        },
        vocabulary: merge_list(f.vocabulary, c.vocabulary),
        snippets: merge_list(f.snippets, c.snippets),
        modes: merge_list(f.modes, c.modes),
        style_profiles: merge_list(f.style_profiles, c.style_profiles),
        llm: match f.llm {
            Some(x) => merge_file_llm_config(c.llm, x),
            None => c.llm,
        },
        mcp: McpConfig {
            allow_start: match f.mcp_allow_start {
                Some(b) => b,
                None => c.mcp.allow_start,
            },
        },
    }
}

// ---------------------------------------------------------------------------
// The environment
// ---------------------------------------------------------------------------

/// The environment variables that override the configuration.
#[derive(Debug)]
pub struct EnvConfig {
    /// `COMLINK_HISTORY_ENABLED`
    pub history_enabled: Option<String>,
    /// `COMLINK_RETAIN_METADATA`
    pub retain_metadata: Option<String>,
    /// `COMLINK_RETAIN_TRANSCRIPTS`
    pub retain_transcripts: Option<String>,
    /// `COMLINK_RETAIN_AUDIO`
    pub retain_audio: Option<String>,
    /// `COMLINK_WHISPER_MODEL`
    pub whisper_model: Option<String>,
    /// `COMLINK_LLM_ENABLED`
    pub llm_enabled: Option<String>,
    /// `COMLINK_LLM_PROVIDER`
    pub llm_provider: Option<String>,
    /// `COMLINK_LLM_ENDPOINT`
    pub llm_endpoint: Option<String>,
    /// `COMLINK_LLM_MODEL`
    pub llm_model: Option<String>,
    /// `COMLINK_MCP_ALLOW_START`
    pub mcp_allow_start: Option<String>,
}

/// The truth value that a lower-case word stands for.
pub open spec fn word_value(w: Seq<char>) -> Option<bool> {
    if w == "1"@ || w == "true"@ || w == "yes"@ || w == "on"@ {
        Some(true)
    } else if w == "0"@ || w == "false"@ || w == "no"@ || w == "off"@ {
        Some(false)
    } else {
        None
    }
}

/// The truth value that a lower-case word stands for.
fn parse_word(w: &str) -> (r: Option<bool>)
    ensures
        r == word_value(w@),
{
    if str_eq(w, "1") || str_eq(w, "true") || str_eq(w, "yes") || str_eq(w, "on") {
        Some(true)
    } else if str_eq(w, "0") || str_eq(w, "false") || str_eq(w, "no") || str_eq(w, "off") {
        Some(false)
    } else {
        None
    }
}

/// Reads a boolean given to `config set`: the spellings of the boolean
/// environment variables, with white space around them ignored.
pub fn parse_bool_value(name: &'static str, value: &str) -> (r: Result<bool, ComlinkError>)
    ensures
        match word_value(lower(trim(value@))) {
            Some(b) => r == Ok::<bool, ComlinkError>(b),
            None => r matches Err(ComlinkError::InvalidConfigValue { name: n, value: v }) && n@
                == name@ && v@ == lower(trim(value@)),
        },
{
    let word = to_lower(&str_trim(value));
    match parse_word(&word) {
        Some(b) => Ok(b),
        None => Err(ComlinkError::InvalidConfigValue { name, value: word }),
    }
}

/// Reads a boolean environment variable. One that is not set gives `None`.
pub fn bool_env(name: &'static str, value: &Option<String>) -> (r: Result<
    Option<bool>,
    ComlinkError,
>)
    ensures
        match *value {
            None => r == Ok::<Option<bool>, ComlinkError>(None),
            Some(v) => match word_value(lower(v@)) {
                Some(b) => r == Ok::<Option<bool>, ComlinkError>(Some(b)),
                None => r matches Err(ComlinkError::InvalidConfigValue { name: n, value: w }) && n@
                    == name@ && w@ == lower(v@),
            },
        },
{
    match value {
        None => Ok(None),
        Some(v) => {
            let word = to_lower(v);
            match parse_word(&word) {
                Some(b) => Ok(Some(b)),
                None => Err(ComlinkError::InvalidConfigValue { name, value: word }),
            }
        },
    }
}

/// The provider that a word names.
pub open spec fn provider_named(w: Seq<char>) -> Option<LlmProvider> {
    if w == "ollama"@ {
        Some(LlmProvider::Ollama)
    } else if w == "openai-compatible"@ || w == "openai"@ {
        Some(LlmProvider::OpenAiCompatible)
    } else {
        None
    }
}

/// Reads the provider named by the environment.
pub fn parse_llm_provider(value: &str) -> (r: Result<LlmProvider, ComlinkError>)
    ensures
        match provider_named(value@) {
            Some(p) => r == Ok::<LlmProvider, ComlinkError>(p),
            None => r matches Err(ComlinkError::InvalidConfigValue { name: n, value: v }) && n@
                == "COMLINK_LLM_PROVIDER"@ && v@ == value@,
        },
{
    if str_eq(value, "ollama") {
        Ok(LlmProvider::Ollama)
    } else if str_eq(value, "openai-compatible") || str_eq(value, "openai") {
        Ok(LlmProvider::OpenAiCompatible)
    } else {
        Err(
            ComlinkError::InvalidConfigValue {
                name: "COMLINK_LLM_PROVIDER",
                value: value.to_owned(),
            },
        )
    }
}

/// The spelling of a provider is read back as that provider, from the environment and from
/// a configuration file.
pub proof fn law_provider_round_trip(p: LlmProvider)
    ensures
        provider_named(p.name()) == Some(p),
        LlmProvider::stored(p.name()) == Some(p),
{
    reveal_strlit("ollama");
    reveal_strlit("openai-compatible");
    assert("ollama"@.len() == 6);
    assert("openai-compatible"@.len() == 17);
}

/// Whether a variable is not set or holds a truth value.
pub open spec fn bool_ok(o: Option<String>) -> bool {
    match o {
        Some(v) => word_value(lower(v@)) is Some,
        None => true,
    }
}

/// The truth value that a variable gives, or the one in force.
pub open spec fn env_bool(o: Option<String>, current: bool) -> bool {
    match o {
        Some(v) => match word_value(lower(v@)) {
            Some(b) => b,
            None => current,
        },
        None => current,
    }
}

/// The name and the value of the first variable that cannot be read.
pub open spec fn env_failure(env: EnvConfig) -> Option<(Seq<char>, Seq<char>)> {
    if !bool_ok(env.history_enabled) {
        Some(("COMLINK_HISTORY_ENABLED"@, lower(env.history_enabled->0@)))
    } else if !bool_ok(env.retain_metadata) {
        Some(("COMLINK_RETAIN_METADATA"@, lower(env.retain_metadata->0@)))
    } else if !bool_ok(env.retain_transcripts) {
        Some(("COMLINK_RETAIN_TRANSCRIPTS"@, lower(env.retain_transcripts->0@)))
    } else if !bool_ok(env.retain_audio) {
        Some(("COMLINK_RETAIN_AUDIO"@, lower(env.retain_audio->0@)))
    } else if !bool_ok(env.llm_enabled) {
        Some(("COMLINK_LLM_ENABLED"@, lower(env.llm_enabled->0@)))
    } else if env.llm_provider is Some && provider_named(env.llm_provider->0@) is None {
        Some(("COMLINK_LLM_PROVIDER"@, env.llm_provider->0@))
    } else if !bool_ok(env.mcp_allow_start) {
        Some(("COMLINK_MCP_ALLOW_START"@, lower(env.mcp_allow_start->0@)))
    } else {
        None
    }
}

/// A list with a name added where a variable is set.
pub open spec fn noted(s: Seq<Seq<char>>, present: bool, name: Seq<char>) -> Seq<Seq<char>> {
    if present {
        s.push(name)
    } else {
        s
    }
}

/// The sources with the variables that are set added to them, in the order in
/// which they are read.
pub open spec fn env_sources(s: Seq<Seq<char>>, env: EnvConfig) -> Seq<Seq<char>> {
    let s = noted(s, env.history_enabled is Some, "COMLINK_HISTORY_ENABLED"@);
    let s = noted(s, env.retain_metadata is Some, "COMLINK_RETAIN_METADATA"@);
    let s = noted(s, env.retain_transcripts is Some, "COMLINK_RETAIN_TRANSCRIPTS"@);
    let s = noted(s, env.retain_audio is Some, "COMLINK_RETAIN_AUDIO"@);
    let s = noted(s, env.whisper_model is Some, "COMLINK_WHISPER_MODEL"@);
    let s = noted(s, env.llm_enabled is Some, "COMLINK_LLM_ENABLED"@);
    let s = noted(s, env.llm_provider is Some, "COMLINK_LLM_PROVIDER"@);
    let s = noted(s, env.llm_endpoint is Some, "COMLINK_LLM_ENDPOINT"@);
    let s = noted(s, env.llm_model is Some, "COMLINK_LLM_MODEL"@);
    noted(s, env.mcp_allow_start is Some, "COMLINK_MCP_ALLOW_START"@)
}

/// Whether `r` is `c` with the values of a readable environment taken over.
pub open spec fn is_env_merge(c: Config, env: EnvConfig, r: Config) -> bool {
    &&& r.history_enabled == env_bool(env.history_enabled, c.history_enabled)
    &&& r.retention.metadata == env_bool(env.retain_metadata, c.retention.metadata)
    &&& r.retention.transcripts == env_bool(env.retain_transcripts, c.retention.transcripts)
    &&& r.retention.audio == env_bool(env.retain_audio, c.retention.audio)
    &&& match env.whisper_model {
        Some(path) => {
            &&& named_models(c.models@, "env"@, path, r.models@)
            &&& opt_text(r.selected_model) == Some("env"@)
        },
        None => r.models@ == c.models@ && r.selected_model == c.selected_model,
    }
    &&& r.vocabulary == c.vocabulary
    &&& r.snippets == c.snippets
    &&& r.modes == c.modes
    &&& r.style_profiles == c.style_profiles
    &&& r.llm.enabled == env_bool(env.llm_enabled, c.llm.enabled)
    &&& r.llm.provider == match env.llm_provider {
        Some(v) => given_or(provider_named(v@), c.llm.provider),
        None => c.llm.provider,
    }
    &&& r.llm.endpoint == given_or(env.llm_endpoint, c.llm.endpoint)
    &&& r.llm.model == given_or_kept(env.llm_model, c.llm.model)
    &&& r.llm.timeout_ms == c.llm.timeout_ms
    &&& r.mcp.allow_start == env_bool(env.mcp_allow_start, c.mcp.allow_start)
}

/// Adds a source to the list where a variable is set.
fn note(sources: &mut Vec<String>, present: bool, name: &str)
    ensures
        texts(final(sources)@) == noted(texts(old(sources)@), present, name@),
{
    broadcast use lemma_texts_push;

    if present {
        sources.push(name.to_owned());
    }
}

/// The variables that had to be read.
struct EnvValues {
    history_enabled: Option<bool>,
    retain_metadata: Option<bool>,
    retain_transcripts: Option<bool>,
    retain_audio: Option<bool>,
    llm_enabled: Option<bool>,
    llm_provider: Option<LlmProvider>,
    mcp_allow_start: Option<bool>,
}

/// The truth value that a variable gives.
spec fn env_word(o: Option<String>) -> Option<bool> {
    match o {
        Some(v) => word_value(lower(v@)),
        None => None,
    }
}

/// Reads the variables. Fails on the first one that cannot be read.
fn read_env(env: &EnvConfig) -> (r: Result<EnvValues, ComlinkError>)
    ensures
        match env_failure(*env) {
            Some((name, value)) => r matches Err(
                ComlinkError::InvalidConfigValue { name: n, value: v },
            ) && n@ == name && v@ == value,
            None => r matches Ok(v) && {
                &&& v.history_enabled == env_word(env.history_enabled)
                &&& v.retain_metadata == env_word(env.retain_metadata)
                &&& v.retain_transcripts == env_word(env.retain_transcripts)
                &&& v.retain_audio == env_word(env.retain_audio)
                &&& v.llm_enabled == env_word(env.llm_enabled)
                &&& v.llm_provider == match env.llm_provider {
                    Some(w) => provider_named(w@),
                    None => None,
                }
                &&& v.mcp_allow_start == env_word(env.mcp_allow_start)
            },
        },
{
    let history_enabled = match bool_env("COMLINK_HISTORY_ENABLED", &env.history_enabled) {
        Ok(o) => o,
        Err(e) => {
            return Err(e);
        },
    };
    let retain_metadata = match bool_env("COMLINK_RETAIN_METADATA", &env.retain_metadata) {
        Ok(o) => o,
        Err(e) => {
            return Err(e);
        },
    };
    let retain_transcripts = match bool_env("COMLINK_RETAIN_TRANSCRIPTS", &env.retain_transcripts) {
        Ok(o) => o,
        Err(e) => {
            return Err(e);
        },
    };
    let retain_audio = match bool_env("COMLINK_RETAIN_AUDIO", &env.retain_audio) {
        Ok(o) => o,
        Err(e) => {
            return Err(e);
        },
    };
    let llm_enabled = match bool_env("COMLINK_LLM_ENABLED", &env.llm_enabled) {
        Ok(o) => o,
        Err(e) => {
            return Err(e);
        },
    };
    let llm_provider = match &env.llm_provider {
        Some(v) => match parse_llm_provider(v) {
            Ok(p) => Some(p),
            Err(e) => {
                return Err(e);
            },
        },
        None => None,
    };
    let mcp_allow_start = match bool_env("COMLINK_MCP_ALLOW_START", &env.mcp_allow_start) {
        Ok(o) => o,
        Err(e) => {
            return Err(e);
        },
    };
    Ok(
        EnvValues {
            history_enabled,
            retain_metadata,
            retain_transcripts,
            retain_audio,
            llm_enabled,
            llm_provider,
            mcp_allow_start,
        },
    )
}

/// The sources with the variables that are set added to them.
fn list_env_sources(sources: Vec<String>, env: &EnvConfig) -> (r: Vec<String>)
    ensures
        texts(r@) == env_sources(texts(sources@), *env),
{
    let mut list = sources;
    note(&mut list, env.history_enabled.is_some(), "COMLINK_HISTORY_ENABLED");
    note(&mut list, env.retain_metadata.is_some(), "COMLINK_RETAIN_METADATA");
    note(&mut list, env.retain_transcripts.is_some(), "COMLINK_RETAIN_TRANSCRIPTS");
    note(&mut list, env.retain_audio.is_some(), "COMLINK_RETAIN_AUDIO");
    note(&mut list, env.whisper_model.is_some(), "COMLINK_WHISPER_MODEL");
    note(&mut list, env.llm_enabled.is_some(), "COMLINK_LLM_ENABLED");
    note(&mut list, env.llm_provider.is_some(), "COMLINK_LLM_PROVIDER");
    note(&mut list, env.llm_endpoint.is_some(), "COMLINK_LLM_ENDPOINT");
    note(&mut list, env.llm_model.is_some(), "COMLINK_LLM_MODEL");
    note(&mut list, env.mcp_allow_start.is_some(), "COMLINK_MCP_ALLOW_START");
    list
}

/// The value given, or the one in force.
fn bool_or(given: Option<bool>, current: bool) -> (r: bool)
    ensures
        r == given_or(given, current),
{
    match given {
        Some(b) => b,
        None => current,
    }
}

/// Takes over the values of the environment. Fails on the first variable that
/// cannot be read.
pub fn merge_env(c: Config, env: EnvConfig, sources: Vec<String>) -> (r: Result<
    (Config, Vec<String>),
    ComlinkError,
>)
    ensures
        match env_failure(env) {
            Some((name, value)) => r matches Err(
                ComlinkError::InvalidConfigValue { name: n, value: v },
            ) && n@ == name && v@ == value,
            None => r matches Ok((config, list)) && is_env_merge(c, env, config) && texts(list@)
                == env_sources(texts(sources@), env),
        },
{
    let v = match read_env(&env) {
        Ok(v) => v,
        Err(e) => {
            return Err(e);
        },
    };
    let list = list_env_sources(sources, &env);
    let (models, selected_model) = match env.whisper_model {
        Some(path) => (upsert_named_model(c.models, "env", path), Some("env".to_owned())),
        None => (c.models, c.selected_model),
    };
    let config = Config {
        history_enabled: bool_or(v.history_enabled, c.history_enabled),
        retention: RetentionConfig {
            metadata: bool_or(v.retain_metadata, c.retention.metadata),
            transcripts: bool_or(v.retain_transcripts, c.retention.transcripts),
            audio: bool_or(v.retain_audio, c.retention.audio),
        },
        selected_model,
        models,
        vocabulary: c.vocabulary,
        snippets: c.snippets,
        modes: c.modes,
        style_profiles: c.style_profiles,
        llm: LocalLlmConfig {
            enabled: bool_or(v.llm_enabled, c.llm.enabled),
            provider: match v.llm_provider {
                Some(p) => p,
                None => c.llm.provider,
            },
            endpoint: match env.llm_endpoint {
                Some(x) => x,
                None => c.llm.endpoint,
            },
            model: match env.llm_model {
                Some(x) => Some(x),
                None => c.llm.model,
            },
            timeout_ms: c.llm.timeout_ms,
        },
        mcp: McpConfig { allow_start: bool_or(v.mcp_allow_start, c.mcp.allow_start) },
    };
    Ok((config, list))
}

/// Whether `r` is `c` with the model of the command line taken over.
pub open spec fn is_cli_merge(c: Config, o: CliConfigOverrides, r: Config) -> bool {
    match o.model {
        Some(path) => {
            &&& named_models(c.models@, "cli"@, path, r.models@)
            &&& opt_text(r.selected_model) == Some("cli"@)
            &&& r == (Config { models: r.models, selected_model: r.selected_model, ..c })
        },
        None => r == c,
    }
}

/// Takes over the model of the command line.
pub fn merge_cli_overrides(
    c: Config,
    sources: Vec<String>,
    overrides: CliConfigOverrides,
) -> (r: (Config, Vec<String>))
    ensures
        is_cli_merge(c, overrides, r.0),
        texts(r.1@) == noted(texts(sources@), overrides.model is Some, "--model"@),
{
    let mut config = c;
    let mut list = sources;
    note(&mut list, overrides.model.is_some(), "--model");
    if let Some(path) = overrides.model {
        let mut taken: Vec<ModelEntry> = Vec::new();
        std::mem::swap(&mut taken, &mut config.models);
        config.models = upsert_named_model(taken, "cli", path);
        config.selected_model = Some("cli".to_owned());
    }
    (config, list)
}

/// Whether `r` is `c` with just the selected model marked.
pub open spec fn is_marked(c: Config, r: Config) -> bool {
    r.models@ == marked(c.models@, c.selected_model) && r == (Config { models: r.models, ..c })
}

/// Marks just the selected model.
fn mark_config(c: Config) -> (r: Config)
    ensures
        is_marked(c, r),
{
    let mut config = c;
    let mut taken: Vec<ModelEntry> = Vec::new();
    std::mem::swap(&mut taken, &mut config.models);
    config.models = mark_selected_model(taken, &config.selected_model);
    config
}

/// The configuration that the file alone gives: `d` are the defaults.
pub open spec fn is_file_layer(d: Config, file: Option<FileConfig>, r: Config) -> bool {
    match file {
        Some(f) => is_file_merge(d, f, r),
        None => r == d,
    }
}

/// The sources that the file alone gives.
pub open spec fn file_sources(file: Option<FileConfig>, path: Seq<char>) -> Seq<Seq<char>> {
    noted(seq!["defaults"@], file is Some, path)
}

/// Takes over the values of the configuration file, where there is one.
fn merge_config_file(file: Option<FileConfig>, path: &str) -> (r: (Config, Vec<String>))
    ensures
        exists|d: Config| #[trigger] is_default(d) && is_file_layer(d, file, r.0),
        texts(r.1@) == file_sources(file, path@),
{
    broadcast use lemma_texts_push;

    let defaults = Config::default();
    let ghost d = defaults;
    let mut sources: Vec<String> = Vec::new();
    sources.push("defaults".to_owned());
    assert(texts(sources@) =~= seq!["defaults"@]);
    note(&mut sources, file.is_some(), path);
    let config = match file {
        Some(f) => merge_file_config(defaults, f),
        None => defaults,
    };
    assert(is_default(d) && is_file_layer(d, file, config));
    (config, sources)
}

/// The layers of a loaded configuration: the defaults, the file, the environment
/// and the command line, each over the one before it.
pub open spec fn is_loaded(
    file: Option<FileConfig>,
    env: EnvConfig,
    overrides: CliConfigOverrides,
    d: Config,
    f: Config,
    e: Config,
    o: Config,
    r: Config,
) -> bool {
    &&& is_default(d)
    &&& is_file_layer(d, file, f)
    &&& is_env_merge(f, env, e)
    &&& is_cli_merge(e, overrides, o)
    &&& is_marked(o, r)
}

/// The configuration that a command runs with. Fails on the first environment
/// variable that cannot be read.
pub fn load(
    paths: ConfigPaths,
    file: Option<FileConfig>,
    env: EnvConfig,
    overrides: CliConfigOverrides,
) -> (r: Result<ResolvedConfig, ComlinkError>)
    ensures
        match env_failure(env) {
            Some((name, value)) => r matches Err(
                ComlinkError::InvalidConfigValue { name: n, value: v },
            ) && n@ == name && v@ == value,
            None => r matches Ok(c) && c.paths == paths && texts(c.sources@) == noted(
                env_sources(file_sources(file, paths.config_file@), env),
                overrides.model is Some,
                "--model"@,
            ) && exists|d: Config, f: Config, e: Config, o: Config|
                #[trigger] is_loaded(file, env, overrides, d, f, e, o, c.config),
        },
{
    let (f, sources) = merge_config_file(file, &paths.config_file);
    let ghost d = choose|d: Config| #[trigger] is_default(d) && is_file_layer(d, file, f);
    match merge_env(f, env, sources) {
        Err(e) => Err(e),
        Ok((e, sources)) => {
            let (o, sources) = merge_cli_overrides(e, sources, overrides);
            let config = mark_config(o);
            assert(is_loaded(file, env, overrides, d, f, e, o, config));
            Ok(ResolvedConfig { paths, config, sources })
        },
    }
}

/// The configuration that edits start from: the file over the defaults, and
/// nothing of the environment or of the command line.
pub fn load_persistent(paths: ConfigPaths, file: Option<FileConfig>) -> (r: ResolvedConfig)
    ensures
        r.paths == paths,
        texts(r.sources@) == file_sources(file, paths.config_file@),
        exists|d: Config, f: Config|
            #[trigger] is_default(d) && #[trigger] is_file_layer(d, file, f) && is_marked(
                f,
                r.config,
            ),
{
    let (f, sources) = merge_config_file(file, &paths.config_file);
    let ghost d = choose|d: Config| #[trigger] is_default(d) && is_file_layer(d, file, f);
    let config = mark_config(f);
    assert(is_default(d) && is_file_layer(d, file, f) && is_marked(f, config));
    ResolvedConfig { paths, config, sources }
}

/// Each layer wins over the one before it: for every setting that the
/// environment gives, the loaded value is the environment's, else the file's
/// where it gives one, else the default. The recording permission of MCP clients
/// is one such setting, and it is off unless the file or the environment turns
/// it on.
pub proof fn law_environment_over_file_over_defaults(
    file: Option<FileConfig>,
    env: EnvConfig,
    overrides: CliConfigOverrides,
    d: Config,
    f: Config,
    e: Config,
    o: Config,
    r: Config,
)
    requires
        is_loaded(file, env, overrides, d, f, e, o, r),
    ensures
        r.mcp.allow_start == env_bool(
            env.mcp_allow_start,
            file is Some && given_or(file->0.mcp_allow_start, false),
        ),
        r.history_enabled == env_bool(
            env.history_enabled,
            file is Some ==> given_or(file->0.history_enabled, true),
        ),
        overrides.model is None && env.whisper_model is None && file is Some
            ==> r.selected_model == file->0.selected_model,
        overrides.model is Some ==> opt_text(r.selected_model) == Some("cli"@),
        overrides.model is None && env.whisper_model is Some ==> opt_text(r.selected_model) == Some(
            "env"@,
        ),
{
}

/// What a variable says in words for yes or no, in any case of their letters, counts over
/// what was in force; one that is not set changes nothing.
pub proof fn law_words_for_yes_and_no(v: String, current: bool)
    ensures
        eq_ignore_case(v@, "1"@) || eq_ignore_case(v@, "true"@) || eq_ignore_case(v@, "yes"@)
            || eq_ignore_case(v@, "on"@) ==> env_bool(Some(v), current),
        eq_ignore_case(v@, "0"@) || eq_ignore_case(v@, "false"@) || eq_ignore_case(v@, "no"@)
            || eq_ignore_case(v@, "off"@) ==> !env_bool(Some(v), current),
        env_bool(Some(v), true) != env_bool(Some(v), false) <==> word_value(lower(v@)) is None,
        env_bool(None, current) == current,
{
    reveal_strlit("1");
    reveal_strlit("true");
    reveal_strlit("yes");
    reveal_strlit("on");
    reveal_strlit("0");
    reveal_strlit("false");
    reveal_strlit("no");
    reveal_strlit("off");
    assert(lower("1"@) =~= "1"@);
    assert(lower("true"@) =~= "true"@);
    assert(lower("yes"@) =~= "yes"@);
    assert(lower("on"@) =~= "on"@);
    assert(lower("0"@) =~= "0"@);
    assert(lower("false"@) =~= "false"@);
    assert(lower("no"@) =~= "no"@);
    assert(lower("off"@) =~= "off"@);
    assert("0"@[0] == '0' && "false"@[0] == 'f' && "no"@[0] == 'n' && "off"@[1] == 'f');
    assert("1"@[0] == '1' && "true"@[0] == 't' && "yes"@[0] == 'y' && "on"@[1] == 'n');
    assert("on"@[0] == 'o' && "off"@[0] == 'o' && "on"@.len() == 2 && "off"@.len() == 3);
}

/// What is kept of recordings, and how the language model is reached, is settled setting
/// by setting: the environment's word where it has one, else the file's, else the default.
/// The default keeps metadata and transcripts but no audio, and asks no language model.
pub proof fn law_each_setting_has_its_own_layers(
    file: Option<FileConfig>,
    env: EnvConfig,
    overrides: CliConfigOverrides,
    d: Config,
    f: Config,
    e: Config,
    o: Config,
    r: Config,
)
    requires
        is_loaded(file, env, overrides, d, f, e, o, r),
    ensures
        ({
            let kept = match file {
                Some(x) => x.retention,
                None => None,
            };
            let asked = match file {
                Some(x) => x.llm,
                None => None,
            };
            &&& r.retention.metadata == env_bool(
                env.retain_metadata,
                match kept {
                    Some(k) => k.metadata != Some(false),
                    None => true,
                },
            )
            &&& r.retention.transcripts == env_bool(
                env.retain_transcripts,
                match kept {
                    Some(k) => k.transcripts != Some(false),
                    None => true,
                },
            )
            &&& r.retention.audio == env_bool(
                env.retain_audio,
                match kept {
                    Some(k) => k.audio == Some(true),
                    None => false,
                },
            )
            &&& r.llm.enabled == env_bool(
                env.llm_enabled,
                match asked {
                    Some(a) => a.enabled == Some(true),
                    None => false,
                },
            )
            &&& env.llm_endpoint matches Some(x) ==> r.llm.endpoint == x
            &&& env.llm_endpoint is None ==> match asked {
                Some(a) => match a.endpoint {
                    Some(x) => r.llm.endpoint == x,
                    None => r.llm.endpoint@ == "http://127.0.0.1:11434/api/generate"@,
                },
                None => r.llm.endpoint@ == "http://127.0.0.1:11434/api/generate"@,
            }
            &&& env.llm_model is Some ==> r.llm.model == env.llm_model
            &&& env.llm_model is None ==> r.llm.model == match asked {
                Some(a) => a.model,
                None => None,
            }
            &&& r.llm.timeout_ms == match asked {
                Some(a) => match a.timeout_ms {
                    Some(ms) => ms,
                    None => 10_000,
                },
                None => 10_000,
            }
        }),
{
}

/// The model that the command line names is the one in use, else the one that the
/// environment names.
pub proof fn law_named_model_is_used(
    file: Option<FileConfig>,
    env: EnvConfig,
    overrides: CliConfigOverrides,
    d: Config,
    f: Config,
    e: Config,
    o: Config,
    r: Config,
)
    requires
        is_loaded(file, env, overrides, d, f, e, o, r),
    ensures
        overrides.model matches Some(path) ==> model_path(r) == Some(path@),
        overrides.model is None ==> (env.whisper_model matches Some(path) ==> model_path(r) == Some(
            path@,
        )),
{
    match overrides.model {
        Some(path) => {
            let i = lemma_named_models(e.models@, "cli"@, path, o.models@);
            lemma_marked_index(o.models@, o.selected_model, "cli"@, i);
        },
        None => {
            if let Some(path) = env.whisper_model {
                let i = lemma_named_models(f.models@, "env"@, path, e.models@);
                lemma_marked_index(e.models@, e.selected_model, "env"@, i);
            }
        },
    }
}

/// A model that is set is found by its name, with its path.
proof fn lemma_named_models(s: Seq<ModelEntry>, name: Seq<char>, path: String, t: Seq<ModelEntry>) -> (i:
    int)
    requires
        named_models(s, name, path, t),
    ensures
        is_model_index(t, name, i),
        t[i].path == path,
{
    match model_index(s, name) {
        Some(i) => {
            assert(is_model_index(s, name, i));
            assert forall|j: int| 0 <= j < i implies (#[trigger] t[j]).name@ != name by {
                assert(t[j] == s[j]);
            }
            i
        },
        None => {
            let n = s.len() as int;
            lemma_no_model(s, name, n);
            assert forall|j: int| 0 <= j < n implies (#[trigger] t[j]).name@ != name by {
                assert(t.drop_last()[j] == t[j]);
                assert(s[j].name@ != name);
            }
            assert(t[n] == t.last());
            n
        },
    }
}

/// Where no position is the first with a name, no entry has it.
proof fn lemma_no_model(s: Seq<ModelEntry>, name: Seq<char>, n: int)
    requires
        model_index(s, name) is None,
        0 <= n <= s.len(),
    ensures
        forall|j: int| 0 <= j < n ==> (#[trigger] s[j]).name@ != name,
    decreases n,
{
    if n > 0 {
        lemma_no_model(s, name, n - 1);
        if s[n - 1].name@ == name {
            assert(is_model_index(s, name, n - 1));
        }
    }
}

/// Marking the selected model leaves every model at its place.
proof fn lemma_marked_index(s: Seq<ModelEntry>, selected: Option<String>, name: Seq<char>, i: int)
    requires
        is_model_index(s, name, i),
    ensures
        model_index(marked(s, selected), name) == Some(i),
        marked(s, selected)[i].path == s[i].path,
        marked(s, selected)[i].selected == (opt_text(selected) == Some(s[i].name@)),
{
    let t = marked(s, selected);
    assert forall|j: int| 0 <= j < i implies (#[trigger] t[j]).name@ != name by {
        assert(t[j].name == s[j].name);
    }
    assert(is_model_index(t, name, i));
    let k = model_index(t, name)->Some_0;
    assert(is_model_index(t, name, k));
    assert(k == i) by {
        if k < i {
            assert(t[k].name@ == name);
        } else if i < k {
            assert(t[i].name@ == name);
        }
    }
}

/// Removing entries keeps every other entry, in its place among the rest, and putting one
/// in keeps every entry with another phrase.
pub proof fn law_other_entries_stay<T: Phrased>(s: Seq<T>, k: Seq<char>, e: T, i: int)
    requires
        0 <= i < s.len(),
    ensures
        without_key(s, k) == s.filter(|x: T| !eq_ignore_case(x.key(), k)),
        !eq_ignore_case(s[i].key(), e.key()) ==> ranked(upserted(s, e)).contains(s[i]),
{
    lemma_without_key_filter(s, k);
    let u = upserted(s, e);
    if !eq_ignore_case(s[i].key(), e.key()) {
        assert(u[i] == s[i]) by {
            if let Some(j) = key_index(s, e.key()) {
                assert(is_key_index(s, e.key(), j));
            }
        }
        let p = crate::ordering::lemma_ranked_places(u);
        assert(p.contains(i));
        let m = choose|m: int| 0 <= m < p.len() && p[m] == i;
        assert(ranked(u)[m] == u[p[m]]);
    }
}

/// The entries that are left are those with another phrase.
proof fn lemma_without_key_filter<T: Keyed>(s: Seq<T>, k: Seq<char>)
    ensures
        without_key(s, k) == s.filter(|x: T| !eq_ignore_case(x.key(), k)),
    decreases s.len(),
{
    reveal(Seq::filter);
    if s.len() > 0 {
        lemma_without_key_filter(s.drop_last(), k);
    }
}

/// What `config set` did.
#[derive(Debug, Clone, PartialEq, Eq)]
pub struct ConfigSetOutcome {
    pub key: &'static str,
    pub value: bool,
    pub config_file: String,
    /// The value of `COMLINK_MCP_ALLOW_START` where it is set and disagrees with
    /// the saved one, so that the caller can warn that the environment wins.
    pub env_override: Option<String>,
}

/// Whether an environment value disagrees with a saved one, or cannot be read.
pub open spec fn env_disagrees(o: Option<String>, value: bool) -> bool {
    o is Some && word_value(lower(trim(o->0@))) != Some(value)
}

/// Sets one key of the persistent configuration. Only `mcp.allow_start` can be
/// set. Gives the outcome and the configuration to save, which differs from the
/// one before in that key alone; where the key or the value is refused there is
/// nothing to save.
pub fn set_key(key: &str, value: &str, persistent: ResolvedConfig, env_value: Option<String>) -> (r:
    Result<(ConfigSetOutcome, Config), ComlinkError>)
    ensures
        if key@ != "mcp.allow_start"@ {
            r matches Err(ComlinkError::UnknownConfigKey(k)) && k@ == key@
        } else {
            match word_value(lower(trim(value@))) {
                None => r matches Err(ComlinkError::InvalidConfigValue { name: n, value: v }) && n@
                    == "mcp.allow_start"@ && v@ == lower(trim(value@)),
                Some(b) => r matches Ok((outcome, config)) && {
                    &&& config == (Config { mcp: McpConfig { allow_start: b }, ..persistent.config })
                    &&& outcome.key@ == "mcp.allow_start"@
                    &&& outcome.value == b
                    &&& outcome.config_file == persistent.paths.config_file
                    &&& outcome.env_override == if env_disagrees(env_value, b) {
                        env_value
                    } else {
                        None
                    }
                },
            }
        },
{
    if !str_eq(key, "mcp.allow_start") {
        return Err(ComlinkError::UnknownConfigKey(key.to_owned()));
    }
    let value = match parse_bool_value("mcp.allow_start", value) {
        Ok(b) => b,
        Err(e) => {
            return Err(e);
        },
    };
    let mut config = persistent.config;
    config.mcp.allow_start = value;
    let disagrees = match &env_value {
        Some(raw) => match parse_word(&to_lower(&str_trim(raw))) {
            Some(b) => b != value,
            None => true,
        },
        None => false,
    };
    let env_override = if disagrees {
        env_value
    } else {
        None
    };
    Ok(
        (
            ConfigSetOutcome {
                key: "mcp.allow_start",
                value,
                config_file: persistent.paths.config_file,
                env_override,
            },
            config,
        ),
    )
}

/// The lines that show a configuration.
pub open spec fn config_text(c: ResolvedConfig) -> Seq<char> {
    "home_dir: "@ + c.paths.home_dir@ + "\nconfig_file: "@ + c.paths.config_file@
        + "\ndatabase_file: "@ + c.paths.database_file@ + "\nhistory_enabled: "@ + bool_word(
        c.config.history_enabled,
    ) + "\nretention: metadata="@ + bool_word(c.config.retention.metadata) + ", transcripts="@
        + bool_word(c.config.retention.transcripts) + ", audio="@ + bool_word(
        c.config.retention.audio,
    ) + "\nselected_model: "@ + match c.config.selected_model {
        Some(name) => name@,
        None => "<none>"@,
    } + "\nmcp: allow_start="@ + bool_word(c.config.mcp.allow_start) + "\nsources: "@ + join(
        texts(c.sources@),
        ", "@,
    )
}

/// The lines that show a configuration.
pub fn render_config(c: &ResolvedConfig) -> (r: String)
    ensures
        r@ == config_text(*c),
{
    let mut s = cat2("home_dir: ", &c.paths.home_dir);
    s.append("\nconfig_file: ");
    s.append(&c.paths.config_file);
    s.append("\ndatabase_file: ");
    s.append(&c.paths.database_file);
    s.append("\nhistory_enabled: ");
    s.append(bool_text(c.config.history_enabled));
    s.append("\nretention: metadata=");
    s.append(bool_text(c.config.retention.metadata));
    s.append(", transcripts=");
    s.append(bool_text(c.config.retention.transcripts));
    s.append(", audio=");
    s.append(bool_text(c.config.retention.audio));
    s.append("\nselected_model: ");
    s.append(
        match &c.config.selected_model {
            Some(name) => name.as_str(),
            None => "<none>",
        },
    );
    s.append("\nmcp: allow_start=");
    s.append(bool_text(c.config.mcp.allow_start));
    s.append("\nsources: ");
    s.append(&str_join(&c.sources, ", "));
    s
}

/// The configuration lies where the environment says, else in the place that the system has
/// for it below the user's home.
pub proof fn law_configuration_has_its_place(env: PathEnvironment)
    ensures
        env.comlink_home matches Some(path) ==> home_of(env) == Some(path@),
        env.comlink_home is None && env.macos ==> (env.home matches Some(home) ==> home_of(env)
            == Some(
            joined(joined(joined(home@, "Library"@), "Application Support"@), "comlink"@),
        )),
        env.comlink_home is None && !env.macos ==> (env.xdg_config_home matches Some(path)
            ==> home_of(env) == Some(joined(path@, "comlink"@))),
        env.comlink_home is None && !env.macos && env.xdg_config_home is None ==> (
        env.home matches Some(home) ==> home_of(env) == Some(
            joined(joined(home@, ".config"@), "comlink"@),
        )),
        env.comlink_home is None && env.home is None && (env.macos || env.xdg_config_home is None)
            ==> home_of(env) is None,
{
}

/// Phrases stand longest first, and those of one length by their text in small letters.
pub proof fn law_longer_phrases_first(a: Seq<char>, b: Seq<char>)
    ensures
        byte_len(a) > byte_len(b) ==> phrase_precedes(a, b) && !phrase_precedes(b, a),
        byte_len(a) == byte_len(b) ==> (phrase_precedes(a, b) <==> text_le(lower(a), lower(b))),
{
}

/// What a file lists takes the place of what was in force, in order and whole; where it lists
/// nothing, that stays.
pub proof fn law_listed_entries_replace<T: Ranked>(given: Vec<T>, current: Seq<T>)
    ensures
        merged_list(Some(given), current).to_multiset() == given@.to_multiset(),
        is_ranked(merged_list(Some(given), current)),
        merged_list(None::<Vec<T>>, current) == current,
{
    lemma_ranked(given@);
}

/// A selection that the environment or the command line made is not saved; any other is.
pub proof fn law_saved_selection(o: Option<String>)
    ensures
        o matches Some(name) ==> (name@ == "env"@ || name@ == "cli"@ ==> persistent_selection(o)
            is None) && (name@ != "env"@ && name@ != "cli"@ ==> persistent_selection(o) == o),
        o is None ==> persistent_selection(o) is None,
{
}

/// An environment cannot be read just where one of its words for yes or no is none, or its
/// provider is not known; the first that cannot be read is told by its name.
pub proof fn law_unreadable_environments(env: EnvConfig)
    ensures
        env_failure(env) is None <==> bool_ok(env.history_enabled) && bool_ok(env.retain_metadata)
            && bool_ok(env.retain_transcripts) && bool_ok(env.retain_audio) && bool_ok(
            env.llm_enabled,
        ) && bool_ok(env.mcp_allow_start) && (env.llm_provider matches Some(p) ==> provider_named(
            p@,
        ) is Some),
        !bool_ok(env.history_enabled) ==> (env_failure(env) matches Some((name, _)) && name
            == "COMLINK_HISTORY_ENABLED"@),
{
}

/// A saved value and the environment disagree where the environment says the opposite, or
/// nothing that can be read.
pub proof fn law_disagreeing_environments(v: String, value: bool)
    ensures
        eq_ignore_case(trim(v@), "true"@) ==> env_disagrees(Some(v), value) == !value,
        eq_ignore_case(trim(v@), "false"@) ==> env_disagrees(Some(v), value) == value,
        !env_disagrees(None, value),
{
    reveal_strlit("true");
    reveal_strlit("false");
    reveal_strlit("1");
    reveal_strlit("0");
    reveal_strlit("yes");
    reveal_strlit("no");
    reveal_strlit("on");
    reveal_strlit("off");
    assert(lower("true"@) =~= "true"@);
    assert(lower("false"@) =~= "false"@);
    assert("false"@.len() == 5 && "true"@.len() == 4 && "1"@.len() == 1 && "0"@.len() == 1);
    assert("yes"@.len() == 3 && "no"@.len() == 2 && "on"@.len() == 2 && "off"@.len() == 3);
}

} // verus!
