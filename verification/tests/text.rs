use comlink::config::{Config, ModeEntry, SnippetEntry, StyleExample, StyleProfile, VocabularyEntry};
use comlink::strings::{str_replace, str_split_once, str_trim, str_words, to_lower};
use comlink::text::{mode_registry, resolve_mode, validate_mode, TextMode, TextRules};

fn rules<'a>(vocabulary: &'a [VocabularyEntry], snippets: &'a [SnippetEntry]) -> TextRules<'a> {
    TextRules { vocabulary, snippets }
}

#[test]
fn clean_mode_collapses_whitespace_removes_safe_fillers_and_fixes_punctuation() {
    assert_eq!(
        TextMode::Clean.process("  um first line \n uh second line  .  ", TextRules::default()),
        "first line second line."
    );
}

#[test]
fn raw_mode_only_trims_edges() {
    assert_eq!(TextMode::Raw.process("  first   second  ", TextRules::default()), "first   second");
}

#[test]
fn vocabulary_replaces_phrases_case_insensitively() {
    let vocabulary = vec![VocabularyEntry {
        phrase: "super base".to_string(),
        replacement: "Supabase".to_string(),
    }];

    assert_eq!(
        TextMode::Clean.process("connect super base now", rules(&vocabulary, &[])),
        "connect Supabase now"
    );
}

#[test]
fn snippets_use_longest_trigger_first() {
    let snippets = vec![
        SnippetEntry { trigger: "my".to_string(), body: "short".to_string() },
        SnippetEntry { trigger: "my signature".to_string(), body: "Best,\nLuke".to_string() },
    ];

    assert_eq!(
        TextMode::Clean.process("thanks my signature", rules(&[], &snippets)),
        "thanks Best,\nLuke"
    );
}

#[test]
fn coding_prompt_preserves_code_like_tokens() {
    let raw = "uh keep fn(arg) arr[i] map {key: value} [text](url) src/main.rs cargo test --all camelCase snake_case https://example.com/api";

    assert_eq!(
        TextMode::CodingPrompt.process(raw, TextRules::default()),
        "keep fn(arg) arr[i] map {key: value} [text](url) src/main.rs cargo test --all camelCase snake_case https://example.com/api."
    );
}

#[test]
fn phrase_matching_handles_non_ascii_char_boundaries() {
    let vocabulary = vec![VocabularyEntry {
        phrase: "cafe".to_string(),
        replacement: "Cafe".to_string(),
    }];

    assert_eq!(TextMode::Clean.process("café", rules(&vocabulary, &[])), "café");
}

#[test]
fn mode_registry_lists_all_builtin_modes() {
    let modes = mode_registry(&Default::default());
    assert_eq!(modes.len(), 6);
    assert!(modes.iter().any(|mode| mode.name == "coding-prompt"));
}

#[test]
fn configured_mode_resolves_with_instruction_and_fallback() {
    let mut config = Config::default();
    config.modes.push(ModeEntry {
        name: "prompt".to_string(),
        description: Some("Coding prompt".to_string()),
        deterministic_mode: Some("clean".to_string()),
        llm_instruction: Some("Rewrite as a prompt".to_string()),
        style_profile: None,
    });

    let mode = resolve_mode(&config, "prompt").unwrap();

    assert_eq!(mode.name, "prompt");
    assert_eq!(mode.deterministic_mode, TextMode::Clean);
    assert_eq!(mode.llm_instruction.as_deref(), Some("Rewrite as a prompt"));
    assert_eq!(mode.process_deterministic("um ship it", TextRules::default()), "ship it");
}

#[test]
fn configured_mode_warns_for_unknown_deterministic_mode() {
    let mut config = Config::default();
    config.modes.push(ModeEntry {
        name: "prompt".to_string(),
        description: None,
        deterministic_mode: Some("typo".to_string()),
        llm_instruction: Some("Rewrite as a prompt".to_string()),
        style_profile: None,
    });

    let mode = resolve_mode(&config, "prompt").unwrap();

    assert_eq!(mode.deterministic_mode, TextMode::Memo);
    assert_eq!(mode.warnings.len(), 1);
    assert!(mode.warnings[0].contains("unknown deterministic mode"));
}

#[test]
fn configured_mode_warns_for_missing_style_profile() {
    let mut config = Config::default();
    config.modes.push(ModeEntry {
        name: "prompt".to_string(),
        description: None,
        deterministic_mode: Some("clean".to_string()),
        llm_instruction: Some("Rewrite as a prompt".to_string()),
        style_profile: Some("missing".to_string()),
    });

    let mode = resolve_mode(&config, "prompt").unwrap();

    assert!(mode.style_profile.is_none());
    assert_eq!(mode.warnings.len(), 1);
    assert!(mode.warnings[0].contains("missing style profile"));
}

#[test]
fn configured_mode_finds_its_style_profile() {
    let mut config = Config::default();
    config.style_profiles.push(StyleProfile {
        name: "terse".to_string(),
        summary: "short".to_string(),
        examples: vec![StyleExample { input: "a".to_string(), output: "b".to_string() }],
    });
    config.modes.push(ModeEntry {
        name: "prompt".to_string(),
        description: None,
        deterministic_mode: Some("clean".to_string()),
        llm_instruction: Some("Rewrite".to_string()),
        style_profile: Some("terse".to_string()),
    });

    let mode = resolve_mode(&config, "prompt").unwrap();

    assert_eq!(mode.style_profile.unwrap().summary, "short");
    assert!(mode.warnings.is_empty());
}

#[test]
fn every_mode_name_is_read_back() {
    for mode in [
        TextMode::Raw,
        TextMode::Clean,
        TextMode::Memo,
        TextMode::CodingPrompt,
        TextMode::EmailReply,
        TextMode::SlackReply,
    ] {
        assert_eq!(TextMode::parse(mode.as_str()), Some(mode));
        validate_mode(&Config::default(), mode.as_str()).unwrap();
    }
    assert_eq!(TextMode::parse("nope"), None);
}

#[test]
fn replacements_need_a_whole_phrase() {
    let vocabulary = vec![VocabularyEntry {
        phrase: "base".to_string(),
        replacement: "BASE".to_string(),
    }];
    assert_eq!(
        TextMode::Clean.process("database base baseline", rules(&vocabulary, &[])),
        "database BASE baseline"
    );
    assert_eq!(TextMode::Raw.process(" base ", rules(&vocabulary, &[])), "base");
}

#[test]
fn texts_are_taken_apart_and_put_together() {
    assert_eq!(str_trim("\u{3000} a b \t"), "a b");
    assert_eq!(to_lower("ÄbC"), "Äbc");
    assert_eq!(str_words(" a  b\nc "), vec!["a", "b", "c"]);
    assert_eq!(str_split_once("a/b/c", "/"), Some(("a".to_string(), "b/c".to_string())));
    assert_eq!(str_split_once("abc", "/"), None);
    assert_eq!(str_replace("aaa", "aa", "b"), "ba");
    assert_eq!(str_replace("x-y", "z", "b"), "x-y");
}
