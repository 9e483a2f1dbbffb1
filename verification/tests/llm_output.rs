use comlink::asr::{Segment, SourceMetadata, Transcript};
use comlink::config::{Config, LlmProvider, LocalLlmConfig, ModeEntry};
use comlink::llm::{
    build_request_body, finish_rewrite, http_request, parse_http_endpoint, parse_http_response,
    parse_ollama_response, parse_openai_response, prepare_rewrite, LlmRequestRecord, RewriteInput,
    TransportError, LLM_CONTEXT_POLICY,
};
use comlink::output::{
    new_session_id, plan_text, process_text, render_markdown, LlmPlan, TranscriptOutput,
    SCHEMA_VERSION,
};
use comlink::text::TextMode;

fn record() -> LlmRequestRecord {
    let config = LocalLlmConfig {
        enabled: true,
        model: Some("local".to_string()),
        ..Default::default()
    };
    LlmRequestRecord {
        provider: config.provider.as_str().to_string(),
        endpoint: config.endpoint,
        model: "local".to_string(),
        mode: "prompt".to_string(),
        input_kind: "text".to_string(),
        input_bytes: 5,
        context_policy: LLM_CONTEXT_POLICY.to_string(),
        instruction: "rewrite".to_string(),
        style_profile: None,
    }
}

#[test]
fn request_record_names_text_only_policy() {
    let request = record();

    assert_eq!(request.input_kind, "text");
    assert_eq!(request.context_policy, "text-only; no audio; no external context");
}

#[test]
fn parses_local_http_endpoint() {
    let endpoint = parse_http_endpoint("http://127.0.0.1:11434/api/generate").unwrap();

    assert_eq!(endpoint.host, "127.0.0.1");
    assert_eq!(endpoint.port, 11434);
    assert_eq!(endpoint.path, "/api/generate");
    assert_eq!(endpoint.host_header(), "127.0.0.1:11434");
}

#[test]
fn parses_localhost_and_loopback_ipv6_endpoints() {
    let localhost = parse_http_endpoint("http://localhost/api/generate").unwrap();
    assert_eq!(localhost.host, "localhost");
    assert_eq!(localhost.port, 80);
    assert_eq!(localhost.host_header(), "localhost");

    let ipv6 = parse_http_endpoint("http://[::1]:11434/api/generate").unwrap();
    assert_eq!(ipv6.host, "::1");
    assert_eq!(ipv6.port, 11434);
    assert_eq!(ipv6.socket_address(), "[::1]:11434");
    assert_eq!(ipv6.host_header(), "[::1]:11434");
}

#[test]
fn rejects_non_local_http_endpoint() {
    let error = parse_http_endpoint("http://example.com/api/generate").unwrap_err();

    assert!(error.contains("local-only"));
}

#[test]
fn endpoints_that_only_look_local_are_rejected() {
    for endpoint in [
        "https://localhost/api",
        "http://localhost.example.com/api",
        "http://127.0.0.1.example.com/",
        "http://[::2]/",
        "http://localhost:port/",
        "localhost:11434",
    ] {
        assert!(parse_http_endpoint(endpoint).is_err(), "{endpoint}");
    }
}

#[test]
fn request_bodies_quote_what_they_carry() {
    let input = RewriteInput {
        mode: "prompt",
        text: "say \"hi\"\n",
        instruction: "Rewrite",
        profile: None,
    };
    let body = build_request_body(LlmProvider::Ollama, "m\"odel", &input);
    assert!(body.contains("\"m\\\"odel\""), "{body}");
    let value: serde_json::Value = serde_json::from_str(&body).unwrap();
    assert_eq!(value["model"], "m\"odel");
    assert_eq!(value["stream"], false);
    assert!(value["prompt"].as_str().unwrap().contains("say \"hi\""));

    let body = build_request_body(LlmProvider::OpenAiCompatible, "model", &input);
    let value: serde_json::Value = serde_json::from_str(&body).unwrap();
    assert_eq!(value["model"], "model");
    assert!(value["messages"].is_array());

    let input = RewriteInput { text: "\u{1}\t\u{8}\u{c}\r\n\\/\u{1f}\u{7f}\u{e9}", ..input };
    let body = build_request_body(LlmProvider::OpenAiCompatible, "model", &input);
    assert!(
        body.contains(
            "\"\\u0001\\t\\b\\f\\r\\n\\\\/\\u001f\u{7f}\u{e9}\",\"role\":\"user\""
        ),
        "{body}"
    );

    let endpoint = parse_http_endpoint("http://localhost:1/p").unwrap();
    let request = http_request(&endpoint, "{}");
    assert!(request.starts_with("POST /p HTTP/1.1\r\n"), "{request}");
    assert!(request.ends_with("\r\n\r\n{}"), "{request}");
    assert!(request.contains("Content-Length: 2\r\n"), "{request}");
}

#[test]
fn responses_are_read_or_refused() {
    assert_eq!(parse_ollama_response("{\"response\":\"ok \"}").unwrap(), "ok ");
    assert!(parse_ollama_response("{\"other\":1}").is_err());
    assert!(parse_ollama_response("not json").is_err());
    assert_eq!(
        parse_openai_response("{\"choices\":[{\"message\":{\"content\":\"fine\"}}]}").unwrap(),
        "fine"
    );
    assert!(parse_openai_response("{\"choices\":[]}").is_err());
    assert_eq!(parse_http_response("HTTP/1.1 200 OK\r\nA: b\r\n\r\nbody").unwrap(), "body");
    assert!(parse_http_response("HTTP/1.1 500 Oops\r\n\r\nbody").is_err());
    assert!(parse_http_response("no header").is_err());
}

#[test]
fn rewrites_fall_back_to_a_record() {
    let input = RewriteInput { mode: "prompt", text: "hello", instruction: "Rewrite", profile: None };
    let off = prepare_rewrite(&LocalLlmConfig::default(), &input).unwrap_err();
    assert!(!off.attempted);
    let on = LocalLlmConfig {
        enabled: true,
        model: Some("local".to_string()),
        ..Default::default()
    };
    let prepared = prepare_rewrite(&on, &input).unwrap();
    assert_eq!(prepared.request.input_bytes, 5);
    assert_eq!(prepared.address, "127.0.0.1:11434");
    let failed = finish_rewrite(
        LlmProvider::Ollama,
        record(),
        Err(TransportError::Connect("refused".to_string())),
    )
    .unwrap_err();
    assert!(failed.attempted);
    assert!(failed.error.unwrap().contains("refused"));
    let done = finish_rewrite(
        LlmProvider::Ollama,
        record(),
        Ok("HTTP/1.1 200 OK\r\n\r\n{\"response\":\" Better. \"}".to_string()),
    )
    .unwrap();
    assert_eq!(done.text, "Better.");
}

fn source() -> SourceMetadata {
    SourceMetadata {
        path: "short.wav".to_string(),
        normalized_sample_rate_hz: 16_000,
        normalized_channels: 1,
    }
}

fn unused() -> Result<String, TransportError> {
    Err(TransportError::Request("unused".to_string()))
}

#[test]
fn markdown_export_includes_contract_metadata_and_text() {
    let transcript = Transcript {
        text: "raw words".to_string(),
        engine: "whisper.cpp".to_string(),
        model: "model.bin".to_string(),
        duration_ms: 100,
        segments: Vec::new(),
        source: source(),
    };
    let processed = process_text(
        &transcript.text,
        TextMode::Raw.as_str(),
        &Default::default(),
        false,
        unused(),
    )
    .unwrap();
    let transcript =
        TranscriptOutput::from_transcript(transcript, processed, false, new_session_id(1, 2, 3));

    let markdown = render_markdown(&transcript);

    assert!(markdown.contains("# Comlink Transcript"));
    assert!(markdown.contains("- **Schema:** comlink.session.v1"));
    assert!(markdown.contains("## Final Text"));
    assert!(markdown.contains("raw words"));
}

#[test]
fn json_includes_phase_zero_contract_fields() {
    let transcript = Transcript {
        text: "hello  .".to_string(),
        engine: "whisper.cpp".to_string(),
        model: "model.bin".to_string(),
        duration_ms: 500,
        segments: vec![Segment { start_ms: 0, end_ms: 500, text: "hello".to_string() }],
        source: source(),
    };
    let processed = process_text(
        &transcript.text,
        TextMode::Memo.as_str(),
        &Default::default(),
        false,
        unused(),
    )
    .unwrap();
    let out =
        TranscriptOutput::from_transcript(transcript, processed, true, new_session_id(7, 8, 9));
    assert_eq!(out.schema_version, SCHEMA_VERSION);
    assert_eq!(out.session_id, "s7-8-9");
    assert_eq!(out.text, "hello.");
    assert_eq!(out.raw_text, "hello  .");
    assert_eq!(out.final_text, "hello.");
    assert_eq!(out.mode, "memo");
    assert!(out.copied);
    assert_eq!(out.engine, "whisper.cpp");
    assert_eq!(out.model, "model.bin");
    assert_eq!(out.duration_ms, 500);
    assert_eq!(out.segments.len(), 1);
    assert_eq!(out.source.normalized_sample_rate_hz, 16_000);
    assert_eq!(out.context.policy, "none");
    assert!(out.context.items.is_empty());
    assert_eq!(out.processing_steps[0].name, "deterministic-cleanup");
    assert_eq!(out.processing_steps[3].name, "memo-mode");
    assert!(out.history_session_id.is_none());
}

#[test]
fn local_rules_decide_without_the_language_model() {
    let mut config = Config::default();
    config.modes.push(ModeEntry {
        name: "prompt".to_string(),
        description: None,
        deterministic_mode: Some("clean".to_string()),
        llm_instruction: Some("Rewrite".to_string()),
        style_profile: None,
    });
    config.llm.enabled = true;
    config.llm.model = Some("local".to_string());
    let reply = || Ok("HTTP/1.1 200 OK\r\n\r\n{\"response\":\"From the model\"}".to_string());
    let off = process_text("um ship it", "prompt", &config, true, reply()).unwrap();
    assert_eq!(off.final_text, "ship it");
    let on = process_text("um ship it", "prompt", &config, false, reply()).unwrap();
    assert_eq!(on.final_text, "From the model");
    assert!(matches!(
        plan_text("um ship it", "prompt", &config, false).unwrap().llm,
        LlmPlan::Ask(_)
    ));
    assert!(process_text("x", "missing", &config, false, reply()).is_err());
}
