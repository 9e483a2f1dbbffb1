use comlink::error::ComlinkError;
use comlink::mcp::{
    checked_session_id, input_device_line, invalid_session_id, is_plausible_session_id, list_lead,
    panic_detail,
    parse_transcript_uri, percent_decode, percent_encode, records_microphone, start_lead,
    start_options, status_lead, stop_lead, transcript_lead, transcript_resources, transcript_uri,
    unsupported_document, warning_lines, CallFailure, MeetingSourceArg, MeetingStartParams,
    PanicPayload, ResourceErrorKind, TranscriptFormatArg, TranscriptUri, TranscriptUriKind,
};
use comlink::meet::MeetSourceMode;
use comlink::meet_service::DEFAULT_CHUNK_SECONDS;
use comlink::meet_status::{no_session_report, MeetSessionList, MeetSessionSummary, TranscriptResult};
use comlink::meet_store::MeetingExportKind;
use comlink::record::{DeviceSource, ResolvedRecordDevice};

#[test]
fn transcript_uris_round_trip_and_reject_anything_else() {
    let uri = transcript_uri("meeting-1", TranscriptUriKind::Markdown);
    assert_eq!(uri, "comlink://meetings/meeting-1/transcript.md");
    assert_eq!(
        parse_transcript_uri(&uri).unwrap(),
        TranscriptUri { id: "meeting-1".to_string(), kind: TranscriptUriKind::Markdown }
    );
    assert_eq!(
        parse_transcript_uri("comlink://meetings/m%2D1/transcript.json").unwrap().id,
        "m-1"
    );
    for bad in [
        "file:///etc/passwd",
        "comlink://meetings/",
        "comlink://meetings/m1",
        "comlink://meetings/m1/transcript.txt",
        "comlink://meetings/m1/transcript.md/extra",
        "comlink://meetings//transcript.md",
        "comlink://meetings/../transcript.md",
        "comlink://meetings/%2E%2E/transcript.md",
        "comlink://meetings/a%2Fb/transcript.md",
        "comlink://meetings/a%2/transcript.md",
        "comlink://meetings/a%00/transcript.md",
        "comlink://other/m1/transcript.md",
    ] {
        assert!(parse_transcript_uri(bad).is_err(), "{bad} should be rejected");
    }
}

#[test]
fn session_ids_that_could_escape_the_store_are_not_found() {
    for bad in ["", ".", "..", "../x", "a/b", "a\0b", "a..b"] {
        let error = checked_session_id(Some(bad.to_string())).unwrap_err();
        assert_eq!(error.error_code(), "meeting_session_not_found");
    }
    assert_eq!(checked_session_id(None).unwrap(), None);
    assert_eq!(
        checked_session_id(Some("meeting-20260924-abc_1".to_string())).unwrap(),
        Some("meeting-20260924-abc_1".to_string())
    );
}

#[test]
fn every_source_arg_is_a_service_source_mode() {
    for (arg, mode) in [
        (MeetingSourceArg::MicOnly, MeetSourceMode::MicOnly),
        (MeetingSourceArg::SystemOnly, MeetSourceMode::SystemOnly),
        (MeetingSourceArg::MicPlusSystem, MeetSourceMode::MicPlusSystem),
    ] {
        assert_eq!(MeetSourceMode::parse(arg.as_str()), Some(mode));
        assert_eq!(mode.as_str(), arg.as_str());
    }
}

#[test]
fn input_device_line_names_the_microphone_for_every_selection() {
    let device = |name: Option<&str>, source| ResolvedRecordDevice {
        avfoundation_input: ":1".to_string(),
        name: name.map(str::to_string),
        source,
    };
    assert_eq!(
        input_device_line(&device(
            Some("MacBook Pro Microphone"),
            DeviceSource::SystemDefault
        )),
        "Using system default input device: MacBook Pro Microphone (:1)"
    );
    assert_eq!(
        input_device_line(&device(None, DeviceSource::SystemDefault)),
        "Using system default input device :1"
    );
    let fallback = input_device_line(&device(None, DeviceSource::Fallback));
    assert!(fallback.starts_with("Using fallback input device :1"), "{fallback}");
    assert!(fallback.contains("pass `device`"), "{fallback}");
    assert_eq!(
        input_device_line(&device(Some("USB Mic"), DeviceSource::Flag)),
        "Using input device USB Mic (:1) (from the `device` argument)"
    );
    assert_eq!(
        input_device_line(&device(None, DeviceSource::Env)),
        "Using input device :1 (from COMLINK_RECORD_DEVICE)"
    );
    assert_eq!(DeviceSource::Env.as_str(), "COMLINK_RECORD_DEVICE");
}

#[test]
fn panic_payload_text_is_kept() {
    assert_eq!(panic_detail(PanicPayload::Literal("boom")), "boom");
    assert_eq!(panic_detail(PanicPayload::Text(String::from("kaboom 7"))), "kaboom 7");
    assert_eq!(panic_detail(PanicPayload::Other), "non-string panic payload");
}

#[test]
fn percent_encoding_is_undone_by_decoding() {
    for text in ["", "plain-1_2.3~", "a b/c%d", "é\u{1f600}\0"] {
        assert_eq!(percent_decode(&percent_encode(text)).as_deref(), Some(text));
    }
    assert_eq!(percent_encode("a b/é"), "a%20b%2F%C3%A9");
    assert_eq!(percent_decode("%c3%a9").as_deref(), Some("é"));
    assert_eq!(percent_decode("%C3"), None);
    assert_eq!(percent_decode("%+1").as_deref(), Some("\u{1}"));
    assert_eq!(percent_decode("%1+"), None);
    assert_eq!(percent_decode("%"), None);
}

#[test]
fn uris_of_session_names_are_read_back() {
    for id in ["m_1", "meeting.2", "-"] {
        assert!(is_plausible_session_id(id));
        for kind in [TranscriptUriKind::Json, TranscriptUriKind::Markdown] {
            let parsed = parse_transcript_uri(&transcript_uri(id, kind)).unwrap();
            assert_eq!(parsed, TranscriptUri { id: id.to_string(), kind });
        }
    }
    assert!(!is_plausible_session_id("m 1"));
    assert!(!is_plausible_session_id("é"));
    for id in ["m 1", "é", "", "..", "a/b"] {
        for kind in [TranscriptUriKind::Json, TranscriptUriKind::Markdown] {
            let uri = transcript_uri(id, kind);
            assert_eq!(
                parse_transcript_uri(&uri).unwrap_err(),
                format!("invalid meeting session id {id:?} in {uri}")
            );
        }
    }
}

#[test]
fn refused_uris_are_quoted() {
    let message = parse_transcript_uri("comlink://meetings/m1/a\"b").unwrap_err();
    assert_eq!(
        message,
        unsupported_document("\"a\\\"b\"", "comlink://meetings/m1/a\"b")
    );
    let message = parse_transcript_uri("comlink://meetings/a%0Ab/transcript.md").unwrap_err();
    assert_eq!(
        message,
        invalid_session_id("\"a\\nb\"", "comlink://meetings/a%0Ab/transcript.md")
    );
}

#[test]
fn starting_is_up_to_the_configuration() {
    let params = || MeetingStartParams {
        source: MeetingSourceArg::MicPlusSystem,
        mode: "memo".to_string(),
        device: Some(":1".to_string()),
        system_device: None,
        no_llm: None,
    };
    assert!(matches!(start_options(params(), false), Err(ComlinkError::McpStartDisabled)));
    let options = start_options(params(), true).unwrap();
    assert_eq!(options.source, "mic-plus-system");
    assert_eq!(options.mode, "memo");
    assert_eq!(options.device.as_deref(), Some(":1"));
    assert_eq!(options.chunk_seconds, DEFAULT_CHUNK_SECONDS);
    assert!(!options.no_llm);
    assert!(records_microphone(MeetingSourceArg::MicOnly));
    assert!(!records_microphone(MeetingSourceArg::SystemOnly));
    assert_eq!(TranscriptFormatArg::Json.kind(), MeetingExportKind::Json);
}

#[test]
fn failures_carry_their_codes() {
    let missing = CallFailure::Service(ComlinkError::MeetingSessionNotFound("m".to_string()));
    assert_eq!(missing.code(), "meeting_session_not_found");
    assert_eq!(missing.resource_error_kind(), ResourceErrorKind::NotFound);
    assert!(missing.tool_text().contains("meeting_session_not_found"));
    let panic = CallFailure::Panic("boom".to_string());
    assert_eq!(panic.code(), "internal_panic");
    assert!(panic.message().contains("boom"));
    assert_eq!(panic.resource_error_kind(), ResourceErrorKind::Internal);
    assert_eq!(CallFailure::Cancelled("gone".to_string()).code(), "internal_cancelled");
}

#[test]
fn leads_name_the_session_and_its_warnings() {
    assert!(stop_lead("m1").contains("m1"));
    let device = ResolvedRecordDevice {
        avfoundation_input: ":1".to_string(),
        name: None,
        source: DeviceSource::Env,
    };
    let lead = start_lead("Ask first.", &Some(device), "m1");
    assert_eq!(lead[0], "Ask first.");
    assert_eq!(lead[1], "Using input device :1 (from COMLINK_RECORD_DEVICE)");
    assert!(lead.last().unwrap().contains("m1"));
    assert_eq!(warning_lines(&vec!["quiet".to_string()]), vec!["warning: quiet"]);
    assert_eq!(status_lead(&no_session_report()).len(), 1);
    let transcript = TranscriptResult {
        schema_version: "comlink.meeting.v1",
        session_id: "m1".to_string(),
        status: "stopped",
        format: "md",
        content: "text".to_string(),
        transcript_retained: false,
        warnings: vec!["quiet".to_string()],
        audio_level: None,
    };
    assert!(transcript_lead(&transcript).iter().any(|line| line.contains("quiet")));
}

#[test]
fn stopped_sessions_are_offered_as_resources() {
    let summary = |id: &str, status: &'static str| MeetSessionSummary {
        session_id: id.to_string(),
        status,
        started_at_ms: 1,
        stopped_at_ms: None,
        duration_ms: None,
        segment_count: 0,
        source_mode: MeetSourceMode::MicOnly,
    };
    let list = MeetSessionList {
        sessions: vec![summary("m1", "stopped"), summary("m2", "recording")],
        skipped: Vec::new(),
    };
    let resources = transcript_resources(&list);
    assert_eq!(resources.len(), 2);
    assert_eq!(resources[0].uri, "comlink://meetings/m1/transcript.md");
    assert_eq!(resources[0].mime_type, "text/markdown");
    assert_eq!(resources[1].uri, "comlink://meetings/m1/transcript.json");
    assert!(list_lead(&list).contains('2'));
}
