use comlink::clipboard::{
    command_or, copy_after_read, copy_after_restore, copy_after_write, copy_start, inspect_command,
    read_outcome, start_failure, write_outcome, ClipboardCommandState, CopyOptions, CopyStep,
};
use comlink::config::{
    load, load_persistent, parse_bool_value, parse_llm_provider, persistent_form, remove_mode,
    remove_snippet, remove_vocabulary, render_config, resolve_paths, select_model,
    selected_model_path, set_key, style_profile, upsert_mode, upsert_snippet, upsert_style_profile,
    upsert_vocabulary, CliConfigOverrides, Config, ConfigPaths, EnvConfig, FileConfig,
    FileModelEntry, FileRetentionConfig, LlmProvider, ModeEntry, ModelEntry, PathEnvironment,
    SnippetEntry, StyleProfile, VocabularyEntry, MCP_ALLOW_START_ENV,
};
use comlink::deps::{
    ffmpeg_candidates, is_path_like, require_binary, require_existing_model, resolve_binary,
    resolve_model, runtime_from_states, whisper_cpp_candidates, DependencyState, OverrideFacts,
};
use comlink::error::ComlinkError;

fn paths() -> ConfigPaths {
    ConfigPaths {
        home_dir: "/home/u/.comlink".to_string(),
        config_file: "/home/u/.comlink/config.json".to_string(),
        data_dir: "/home/u/.comlink/data".to_string(),
        database_file: "/home/u/.comlink/data/history.sqlite3".to_string(),
        audio_dir: "/home/u/.comlink/data/audio".to_string(),
    }
}

fn no_env() -> EnvConfig {
    EnvConfig {
        history_enabled: None,
        retain_metadata: None,
        retain_transcripts: None,
        retain_audio: None,
        whisper_model: None,
        llm_enabled: None,
        llm_provider: None,
        llm_endpoint: None,
        llm_model: None,
        mcp_allow_start: None,
    }
}

fn no_file() -> FileConfig {
    FileConfig {
        history_enabled: None,
        retention: None,
        selected_model: None,
        models: None,
        vocabulary: None,
        snippets: None,
        modes: None,
        style_profiles: None,
        llm: None,
        mcp_allow_start: None,
    }
}

fn model(name: &str, path: &str, selected: bool) -> ModelEntry {
    ModelEntry { name: name.to_string(), path: path.to_string(), selected }
}

#[test]
fn config_env_overrides_file_and_defaults() {
    let file = FileConfig {
        history_enabled: Some(false),
        retention: Some(FileRetentionConfig {
            metadata: None,
            transcripts: Some(true),
            audio: None,
        }),
        selected_model: Some("file".to_string()),
        models: Some(vec![FileModelEntry {
            name: "file".to_string(),
            path: "/tmp/file-model.bin".to_string(),
        }]),
        vocabulary: Some(vec![VocabularyEntry {
            phrase: "super base".to_string(),
            replacement: "Supabase".to_string(),
        }]),
        snippets: Some(vec![SnippetEntry {
            trigger: "my signature".to_string(),
            body: "Best,\nLuke".to_string(),
        }]),
        ..no_file()
    };
    let env = EnvConfig {
        history_enabled: Some("true".to_string()),
        retain_transcripts: Some("false".to_string()),
        whisper_model: Some("/tmp/env-model.bin".to_string()),
        ..no_env()
    };

    let resolved = load(paths(), Some(file), env, CliConfigOverrides::default()).unwrap();

    assert!(resolved.config.history_enabled);
    assert!(!resolved.config.retention.transcripts);
    assert_eq!(resolved.config.selected_model.as_deref(), Some("env"));
    assert_eq!(selected_model_path(&resolved.config).unwrap(), "/tmp/env-model.bin");
    assert!(resolved.sources.contains(&"COMLINK_WHISPER_MODEL".to_string()));
    assert_eq!(resolved.config.vocabulary[0].replacement, "Supabase");
    assert_eq!(resolved.config.snippets[0].body, "Best,\nLuke");
}

#[test]
fn invalid_bool_env_is_rejected() {
    let env = EnvConfig { retain_audio: Some("maybe".to_string()), ..no_env() };

    let error = load(paths(), None, env, CliConfigOverrides::default()).unwrap_err();

    assert!(error.message().contains("COMLINK_RETAIN_AUDIO"));
}

#[test]
fn llm_provider_uses_advertised_openai_compatible_spelling() {
    assert_eq!(LlmProvider::OpenAiCompatible.as_str(), "openai-compatible");

    let provider = LlmProvider::parse_stored("openai-compatible").unwrap();
    assert_eq!(provider, LlmProvider::OpenAiCompatible);
    assert_eq!(LlmProvider::parse_stored("openai"), None);
    assert_eq!(parse_llm_provider("openai").unwrap(), LlmProvider::OpenAiCompatible);
}

#[test]
fn llm_provider_accepts_legacy_kebab_case_spelling() {
    let provider = LlmProvider::parse_stored("open-ai-compatible").unwrap();

    assert_eq!(provider, LlmProvider::OpenAiCompatible);
}

#[test]
fn save_omits_runtime_models() {
    let config = Config {
        selected_model: Some("file".to_string()),
        models: vec![
            model("file", "/tmp/file-model.bin", false),
            model("env", "/tmp/env-model.bin", true),
            model("cli", "/tmp/cli-model.bin", false),
        ],
        vocabulary: vec![VocabularyEntry {
            phrase: "super base".to_string(),
            replacement: "Supabase".to_string(),
        }],
        snippets: vec![SnippetEntry {
            trigger: "my signature".to_string(),
            body: "Best,\nLuke".to_string(),
        }],
        ..Config::default()
    };

    let saved = persistent_form(config);

    let text = format!("{saved:?}");
    assert!(text.contains("\"file\""));
    assert!(text.contains("\"super base\""));
    assert!(text.contains("\"my signature\""));
    assert!(!text.contains("\"env\""));
    assert!(!text.contains("\"cli\""));
    assert_eq!(persistent_form(saved.clone()), saved);
}

#[test]
fn load_persistent_ignores_runtime_env_overrides() {
    let file = FileConfig {
        selected_model: Some("file".to_string()),
        models: Some(vec![FileModelEntry {
            name: "file".to_string(),
            path: "/tmp/file-model.bin".to_string(),
        }]),
        ..no_file()
    };

    let resolved = load_persistent(paths(), Some(file));

    assert_eq!(resolved.config.selected_model.as_deref(), Some("file"));
    assert_eq!(resolved.config.models.len(), 1);
    assert_eq!(selected_model_path(&resolved.config).unwrap(), "/tmp/file-model.bin");
    assert!(!resolved.sources.contains(&"COMLINK_WHISPER_MODEL".to_string()));
    assert!(!resolved.config.llm.enabled);
    assert_eq!(resolved.config.llm.endpoint, "http://127.0.0.1:11434/api/generate");
    assert_eq!(resolved.config.llm.model, None);
    assert!(!resolved.sources.contains(&"COMLINK_LLM_ENABLED".to_string()));
}

#[test]
fn vocab_and_snippets_are_upserted_and_removed_case_insensitively() {
    let mut config = Config::default();

    upsert_vocabulary(&mut config, "super base".to_string(), "Supabase".to_string());
    upsert_vocabulary(&mut config, "Super Base".to_string(), "SUPABASE".to_string());
    upsert_snippet(&mut config, "my signature".to_string(), "Best".to_string());
    upsert_snippet(&mut config, "My Signature".to_string(), "Regards".to_string());

    assert_eq!(config.vocabulary.len(), 1);
    assert_eq!(config.vocabulary[0].replacement, "SUPABASE");
    assert_eq!(config.snippets.len(), 1);
    assert_eq!(config.snippets[0].body, "Regards");
    assert!(remove_vocabulary(&mut config, "SUPER BASE"));
    assert!(remove_snippet(&mut config, "MY SIGNATURE"));
    assert!(config.vocabulary.is_empty());
    assert!(config.snippets.is_empty());
}

#[test]
fn selected_model_path_is_none_when_registry_entry_is_missing() {
    let config = Config {
        selected_model: Some("missing".to_string()),
        models: Vec::new(),
        ..Config::default()
    };

    assert_eq!(selected_model_path(&config), None);
}

#[test]
fn mcp_allow_start_defaults_false_then_file_then_env_wins() {
    let allowed = || Some(FileConfig { mcp_allow_start: Some(true), ..no_file() });
    let env = |value: &str| EnvConfig { mcp_allow_start: Some(value.to_string()), ..no_env() };
    let defaults = CliConfigOverrides::default;
    assert!(!load(paths(), None, no_env(), defaults()).unwrap().config.mcp.allow_start);
    assert!(load(paths(), allowed(), no_env(), defaults()).unwrap().config.mcp.allow_start);
    let resolved = load(paths(), allowed(), env("false"), defaults()).unwrap();
    assert!(!resolved.config.mcp.allow_start, "env overrides file");
    assert!(resolved.sources.contains(&MCP_ALLOW_START_ENV.to_string()));
    // The persistent view ignores env.
    assert!(load_persistent(paths(), allowed()).config.mcp.allow_start);
    assert!(load(paths(), None, env("1"), defaults()).unwrap().config.mcp.allow_start);
}

#[test]
fn mcp_allow_start_env_rejects_non_boolean() {
    let env = EnvConfig { mcp_allow_start: Some("sometimes".to_string()), ..no_env() };
    let error = load(paths(), None, env, CliConfigOverrides::default()).unwrap_err();
    assert!(matches!(
        error,
        ComlinkError::InvalidConfigValue { name, .. } if name == MCP_ALLOW_START_ENV
    ));
}

fn small_file() -> FileConfig {
    FileConfig {
        history_enabled: Some(false),
        selected_model: Some("base".to_string()),
        models: Some(vec![FileModelEntry {
            name: "base".to_string(),
            path: "/tmp/base.bin".to_string(),
        }]),
        vocabulary: Some(vec![VocabularyEntry {
            phrase: "super base".to_string(),
            replacement: "Supabase".to_string(),
        }]),
        modes: Some(vec![ModeEntry {
            name: "standup".to_string(),
            description: None,
            deterministic_mode: Some("memo".to_string()),
            llm_instruction: None,
            style_profile: None,
        }]),
        ..no_file()
    }
}

#[test]
fn config_set_changes_only_allow_start_and_never_persists_env() {
    let env = || Some("true".to_string());

    let persistent = load_persistent(paths(), Some(small_file()));
    let (outcome, saved) = set_key("mcp.allow_start", "false", persistent, env()).unwrap();

    assert_eq!(outcome.key, "mcp.allow_start");
    assert!(!outcome.value);
    assert_eq!(outcome.config_file, paths().config_file);
    assert_eq!(outcome.env_override.as_deref(), Some("true"));

    assert!(!saved.mcp.allow_start);
    assert!(!saved.history_enabled);
    assert_eq!(saved.selected_model.as_deref(), Some("base"));
    assert_eq!(saved.models[0].path, "/tmp/base.bin");
    assert_eq!(saved.vocabulary[0].replacement, "Supabase");
    assert_eq!(saved.modes[0].name, "standup");
    // Env-derived values never reach disk.
    assert!(!saved.retention.audio);

    let persistent = load_persistent(paths(), Some(small_file()));
    let (outcome, saved) = set_key("mcp.allow_start", "true", persistent, env()).unwrap();
    assert!(outcome.value);
    assert_eq!(outcome.env_override, None, "env agrees with the new value");
    assert!(saved.mcp.allow_start);
}

#[test]
fn config_set_rejects_unknown_keys_and_bad_booleans_without_writing() {
    let persistent = || load_persistent(paths(), None);
    let error = set_key("retention.audio", "true", persistent(), None).unwrap_err();
    assert!(matches!(error, ComlinkError::UnknownConfigKey(ref key) if key == "retention.audio"));
    let error = set_key("mcp.allow_start", "maybe", persistent(), None).unwrap_err();
    assert!(matches!(error, ComlinkError::InvalidConfigValue { .. }));
}

#[test]
fn booleans_have_eight_spellings() {
    for value in ["1", "true", "YES", "On"] {
        assert!(parse_bool_value("x", value).unwrap());
    }
    for value in ["0", "False", "no", "OFF"] {
        assert!(!parse_bool_value("x", value).unwrap());
    }
    assert!(matches!(
        parse_bool_value("x", "Maybe"),
        Err(ComlinkError::InvalidConfigValue { name: "x", value }) if value == "maybe"
    ));
}

#[test]
fn named_entries_are_replaced_and_ranked() {
    let mut config = Config::default();
    upsert_vocabulary(&mut config, "b".to_string(), "1".to_string());
    upsert_vocabulary(&mut config, "long".to_string(), "2".to_string());
    upsert_vocabulary(&mut config, "A".to_string(), "3".to_string());
    let phrases: Vec<&str> = config.vocabulary.iter().map(|entry| entry.phrase.as_str()).collect();
    assert_eq!(phrases, vec!["long", "A", "b"]);
    upsert_mode(&mut config, "Note".to_string(), None, None, None, None);
    upsert_mode(&mut config, "note".to_string(), Some("d".to_string()), None, None, None);
    assert_eq!(config.modes.len(), 1);
    assert_eq!(config.modes[0].description.as_deref(), Some("d"));
    assert!(remove_mode(&mut config, "NOTE"));
    assert!(!remove_mode(&mut config, "NOTE"));
    let profile = StyleProfile {
        name: "Terse".to_string(),
        summary: "s".to_string(),
        examples: Vec::new(),
    };
    upsert_style_profile(&mut config, profile);
    assert_eq!(style_profile(&config, "terse").unwrap().summary, "s");
    assert!(style_profile(&config, "other").is_none());
}

#[test]
fn an_entry_put_in_twice_is_found_once() {
    let mut config = Config::default();
    for (phrase, replacement) in [("b", "1"), ("long", "2"), ("A", "3"), ("B", "4")] {
        upsert_vocabulary(&mut config, phrase.to_string(), replacement.to_string());
    }
    let entries = |config: &Config| -> Vec<(String, String)> {
        config
            .vocabulary
            .iter()
            .map(|entry| (entry.phrase.clone(), entry.replacement.clone()))
            .collect()
    };
    let once = entries(&config);
    let pairs: Vec<(&str, &str)> =
        once.iter().map(|(phrase, text)| (phrase.as_str(), text.as_str())).collect();
    assert_eq!(pairs, vec![("long", "2"), ("A", "3"), ("B", "4")]);
    upsert_vocabulary(&mut config, "B".to_string(), "4".to_string());
    assert_eq!(entries(&config), once);
}

#[test]
fn selecting_a_model_registers_it_once() {
    let mut resolved = load_persistent(paths(), Some(small_file()));
    select_model(&mut resolved, "big", "/tmp/big.bin".to_string());
    select_model(&mut resolved, "big", "/tmp/bigger.bin".to_string());
    assert_eq!(resolved.config.selected_model.as_deref(), Some("big"));
    assert_eq!(selected_model_path(&resolved.config).as_deref(), Some("/tmp/bigger.bin"));
    assert_eq!(resolved.config.models.len(), 2);
    assert_eq!(resolved.config.models.iter().filter(|entry| entry.selected).count(), 1);
    assert!(render_config(&resolved).contains("\nselected_model: big\n"));
}

#[test]
fn paths_follow_the_environment() {
    let env = |comlink_home: Option<&str>, xdg: Option<&str>, home: Option<&str>, macos: bool| {
        PathEnvironment {
            comlink_home: comlink_home.map(str::to_string),
            data_dir: None,
            xdg_config_home: xdg.map(str::to_string),
            home: home.map(str::to_string),
            macos,
        }
    };
    let own = resolve_paths(env(Some("/c"), Some("/x"), Some("/h"), false)).unwrap();
    assert_eq!(own.config_file, "/c/config.json");
    assert_eq!(own.database_file, "/c/data/history.sqlite3");
    assert!(matches!(
        resolve_paths(env(None, None, None, true)),
        Err(ComlinkError::ConfigHomeMissing("HOME"))
    ));
}

#[test]
fn inspect_reports_missing_explicit_copy_command() {
    let missing = "/definitely/missing/comlink-pbcopy".to_string();

    let command = command_or(Some(missing.clone()), "pbcopy");
    let state = inspect_command(command, None, false, false);

    assert_eq!(state, ClipboardCommandState::Missing(missing));
}

#[test]
fn copy_can_restore_previous_clipboard_when_requested() {
    let mut clipboard = "previous".to_string();
    let mut step = copy_start(CopyOptions { restore_previous: true });
    let result = loop {
        step = match step {
            CopyStep::Read => {
                copy_after_read(read_outcome(true, "pbpaste", clipboard.as_bytes(), b""))
            }
            CopyStep::Write(previous) => {
                clipboard = "new text".to_string();
                copy_after_write(previous, write_outcome(true, b""))
            }
            CopyStep::Restore(previous) => {
                clipboard = previous;
                copy_after_restore(write_outcome(true, b""))
            }
            CopyStep::Done(result) => break result,
            CopyStep::Fail(error) => panic!("{error:?}"),
        };
    };

    assert!(result.restored_previous);
    assert_eq!(clipboard, "previous");
}

#[test]
fn clipboard_failures_are_told() {
    assert!(matches!(copy_start(CopyOptions::default()), CopyStep::Write(None)));
    assert!(matches!(
        copy_after_write(None, write_outcome(false, b" broken \n")),
        CopyStep::Fail(ComlinkError::ClipboardFailed(text)) if text.contains("broken")
    ));
    assert!(start_failure("pbcopy", "denied").message().contains("pbcopy"));
    assert!(read_outcome(false, "pbpaste", b"", b"no display").is_err());
    assert_eq!(
        inspect_command("/bin/x".to_string(), None, false, true),
        ClipboardCommandState::NotExecutable("/bin/x".to_string())
    );
}

#[test]
fn explicit_env_override_accepts_command_name_on_path() {
    let command = "/bins/mock-whisper".to_string();

    let state = resolve_binary(
        Some(OverrideFacts {
            value: "mock-whisper".to_string(),
            executable: false,
            present: false,
            on_path: Some(command.clone()),
        }),
        Vec::new(),
    );

    assert_eq!(state, DependencyState::Found(command));
}

#[test]
fn auto_detect_ignores_generic_main_binary() {
    let candidates = whisper_cpp_candidates();
    assert!(!candidates.contains(&"main".to_string()));
    let on_path = candidates.iter().map(|name| (name == "main").then(|| "/bins/main".to_string()));

    let state = resolve_binary(None, on_path.collect());

    assert_eq!(state, DependencyState::Missing);
}

#[test]
fn missing_override_reports_not_found() {
    let missing = "/definitely/not/a/comlink/binary".to_string();

    let state = resolve_binary(
        Some(OverrideFacts {
            value: missing.clone(),
            executable: false,
            present: false,
            on_path: None,
        }),
        vec![Some("/bins/whisper-cli".to_string())],
    );

    assert_eq!(state, DependencyState::NotFound(missing));
}

#[test]
fn dependencies_are_required_or_named_as_missing() {
    assert!(is_path_like("./tool"));
    assert!(is_path_like("bin/tool"));
    assert!(!is_path_like("tool"));
    assert_eq!(ffmpeg_candidates(), vec!["ffmpeg"]);
    let found = |path: &str| DependencyState::Found(path.to_string());
    assert_eq!(require_binary(found("/f"), "FFMPEG", "ffmpeg").unwrap(), "/f");
    assert!(matches!(
        require_binary(DependencyState::Missing, "FFMPEG", "ffmpeg"),
        Err(ComlinkError::DependencyMissing(_))
    ));
    assert!(matches!(
        require_binary(DependencyState::NotFound("/f".to_string()), "FFMPEG", "ffmpeg"),
        Err(ComlinkError::DependencyPathMissing { .. })
    ));
    assert!(matches!(
        require_binary(DependencyState::NotExecutable("/f".to_string()), "FFMPEG", "ffmpeg"),
        Err(ComlinkError::DependencyNotExecutable { .. })
    ));
    assert_eq!(resolve_model(None, false), DependencyState::Missing);
    assert_eq!(
        resolve_model(Some("/m".to_string()), false),
        DependencyState::NotFound("/m".to_string())
    );
    assert!(matches!(
        require_existing_model("/m".to_string(), false),
        Err(ComlinkError::ModelPathMissing(path)) if path == "/m"
    ));
    let deps = runtime_from_states(
        found("/f"),
        DependencyState::Missing,
        found("/w"),
        Some("/m".to_string()),
        true,
    )
    .unwrap();
    assert_eq!(deps.ffprobe, None);
    assert_eq!(deps.whisper_model, "/m");
    assert!(matches!(
        runtime_from_states(found("/f"), found("/p"), found("/w"), None, false),
        Err(ComlinkError::ModelMissing)
    ));
}
