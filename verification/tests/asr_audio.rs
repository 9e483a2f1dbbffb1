use comlink::asr::{
    after_retry, clean_whisper_text, combine_whisper_errors, should_retry_without_gpu,
    trim_for_error, SourceMetadata, WhisperCppEngine, WhisperStep,
};
use comlink::audio::{
    near_silent_device_hint, near_silent_warning_message, normalize_arguments, normalized_duration,
    probe_duration_ms, read_wav_level_samples, require_input, session_audio_level, wav_duration_ms,
    AudioLevel, DeviceHintContext, WavLevelSamples,
};
use comlink::error::ComlinkError;

#[test]
fn cpu_retry_is_limited_to_gpu_backend_failures() {
    assert!(should_retry_without_gpu(
        b"ggml_metal_buffer_init: error: failed to allocate buffer"
    ));
    assert!(should_retry_without_gpu(b"GPU device failed"));
    assert!(!should_retry_without_gpu(b"model path does not exist"));
    assert!(!should_retry_without_gpu(b"invalid audio data"));
}

#[test]
fn combined_whisper_error_preserves_initial_failure_context() {
    let message = combine_whisper_errors(b"metal allocation failed", b"cpu decode failed");

    assert!(message.contains("initial GPU attempt failed: metal allocation failed"));
    assert!(message.contains("CPU retry failed: cpu decode failed"));
}

#[test]
fn whisper_output_becomes_a_transcript() {
    let engine = WhisperCppEngine {
        binary: "/bin/whisper".to_string(),
        model: "/models/model.bin".to_string(),
    };
    let source = || SourceMetadata {
        path: "input.wav".to_string(),
        normalized_sample_rate_hz: 16_000,
        normalized_channels: 1,
    };
    let transcript = engine.transcript(" hello from \n mock whisper\n", source(), 1234).unwrap();
    assert_eq!(transcript.text, "hello from mock whisper");
    assert_eq!(transcript.engine, "whisper.cpp");
    assert_eq!(transcript.model, "/models/model.bin");
    assert_eq!(transcript.duration_ms, 1234);
    assert_eq!(transcript.segments[0].end_ms, 1234);
    assert!(matches!(
        engine.transcript("  \n", source(), 1),
        Err(ComlinkError::EmptyTranscript)
    ));
    let arguments = engine.arguments("a.wav", "out", true);
    assert!(arguments.contains(&"a.wav".to_string()));
    assert!(arguments.contains(&"/models/model.bin".to_string()));
    assert_eq!(clean_whisper_text("a\n\n b "), "a b");
}

#[test]
fn failed_whisper_runs_are_told_with_their_output() {
    assert_eq!(trim_for_error(b"  boom \n"), "boom");
    assert_eq!(trim_for_error(b"\xff"), "\u{fffd}");
    match after_retry(false, b"metal", b"cpu") {
        WhisperStep::Fail(ComlinkError::WhisperFailed(text)) => assert!(text.contains("cpu")),
        other => panic!("unexpected {other:?}"),
    }
    assert!(matches!(after_retry(true, b"metal", b""), WhisperStep::Accept));
}

fn pcm16_wav(samples: &[i16]) -> Vec<u8> {
    let sample_rate = 16_000_u32;
    let channels = 1_u16;
    let bits_per_sample = 16_u16;
    let byte_rate = sample_rate * channels as u32 * bits_per_sample as u32 / 8;
    let data_len = (samples.len() * 2) as u32;

    let mut file = Vec::new();
    file.extend_from_slice(b"RIFF");
    file.extend_from_slice(&(36 + data_len).to_le_bytes());
    file.extend_from_slice(b"WAVEfmt ");
    file.extend_from_slice(&16_u32.to_le_bytes());
    file.extend_from_slice(&1_u16.to_le_bytes());
    file.extend_from_slice(&channels.to_le_bytes());
    file.extend_from_slice(&sample_rate.to_le_bytes());
    file.extend_from_slice(&byte_rate.to_le_bytes());
    file.extend_from_slice(&(channels * bits_per_sample / 8).to_le_bytes());
    file.extend_from_slice(&bits_per_sample.to_le_bytes());
    file.extend_from_slice(b"data");
    file.extend_from_slice(&data_len.to_le_bytes());
    for sample in samples {
        file.extend_from_slice(&sample.to_le_bytes());
    }
    file
}

#[test]
fn reads_wav_duration_without_ffprobe() {
    let file = pcm16_wav(&vec![0_i16; 16_000]);
    assert_eq!(probe_duration_ms(None, Some(&file)), Some(1000));
    assert_eq!(wav_duration_ms(&file), Some(1000));
    assert_eq!(probe_duration_ms(Some(7), Some(&file)), Some(7));
    assert_eq!(probe_duration_ms(None, None), None);
    assert_eq!(wav_duration_ms(b"not a wav"), None);
}

#[test]
fn classifier_flags_below_threshold_and_boundary_but_not_above() {
    // A mean square of 1073.741824 is -60 dBFS.
    let level = |sum_squares: u128| {
        session_audio_level(&vec![WavLevelSamples {
            sum_squares,
            peak_abs: 1_000,
            sample_count: 1_000_000,
        }])
        .unwrap()
    };
    assert!(level(100_000_000).is_near_silent());
    assert!(level(1_073_741_824).is_near_silent());
    assert!(!level(1_073_741_825).is_near_silent());
    assert!(!level(1_000_000_000_000).is_near_silent());
}

#[test]
fn digital_silence_reads_as_near_silent_at_the_floor() {
    let level = session_audio_level(&vec![WavLevelSamples {
        sum_squares: 0,
        peak_abs: 0,
        sample_count: 16_000,
    }])
    .expect("some samples");
    assert_eq!(level.sum_squares, 0);
    assert!(level.is_near_silent());
}

#[test]
fn loud_tone_is_not_near_silent() {
    let level = session_audio_level(&vec![WavLevelSamples {
        sum_squares: 30_000 * 30_000 * 1_000,
        peak_abs: 30_000,
        sample_count: 1_000,
    }])
    .expect("some samples");
    assert_eq!(level.peak_abs, 30_000);
    assert!(!level.is_near_silent());
}

#[test]
fn session_level_energy_weights_across_chunks() {
    let empty = session_audio_level(&Vec::new());
    assert!(empty.is_none());

    let loud = WavLevelSamples {
        sum_squares: 20_000 * 20_000 * 100,
        peak_abs: 20_000,
        sample_count: 100,
    };
    let silent = WavLevelSamples { sum_squares: 0, peak_abs: 0, sample_count: 100 };
    let combined = session_audio_level(&vec![loud, silent]).expect("some samples");
    // Half loud, half silent: the mean square is half of that of the loud half.
    assert_eq!(combined.sum_squares / combined.sample_count as u128, 200_000_000);
    assert_eq!(combined.peak_abs, 20_000);
    assert!(!combined.is_near_silent());
}

#[test]
fn reads_level_from_pcm16_wav_and_measures_silence() {
    let silent =
        read_wav_level_samples(&pcm16_wav(&vec![0_i16; 16_000])).expect("silent samples");
    assert_eq!(silent.sample_count, 16_000);
    assert_eq!(silent.sum_squares, 0);
    assert!(session_audio_level(&vec![silent]).expect("level").is_near_silent());

    let loud =
        read_wav_level_samples(&pcm16_wav(&vec![20_000_i16; 16_000])).expect("loud samples");
    assert_eq!(loud.peak_abs, 20_000);
    assert!(!session_audio_level(&vec![loud]).expect("level").is_near_silent());

    let lowest = read_wav_level_samples(&pcm16_wav(&[i16::MIN])).expect("one sample");
    assert_eq!(lowest.peak_abs, 32_768);
    assert_eq!(lowest.sum_squares, 32_768 * 32_768);
    assert!(read_wav_level_samples(b"RIFF").is_none());
}

#[test]
fn quiet_files_make_a_quiet_session() {
    let quiet = |sum_squares: u128, sample_count: u64| WavLevelSamples {
        sum_squares,
        peak_abs: 40,
        sample_count,
    };
    let both = session_audio_level(&vec![quiet(1_000, 1_000), quiet(0, 5)]).unwrap();
    assert!(both.is_near_silent());
}

#[test]
fn near_silent_warning_mentions_device_permission_and_doctor() {
    let level = AudioLevel {
        mean_dbfs: "-70.0".to_string(),
        peak_dbfs: "-60.0".to_string(),
        near_silent: true,
    };
    let message = near_silent_warning_message(&level.mean_dbfs);
    assert!(message.contains("near-silent"));
    assert!(message.contains("-70.0 dBFS"));
    assert!(message.contains("device"));
    assert!(message.contains("permission"));
    assert!(message.contains("muted"));
    assert!(message.contains("comlink doctor"));
}

#[test]
fn device_hints_name_the_device_and_its_alternatives() {
    let devices = vec!["A".to_string(), "B".to_string()];
    let hint = near_silent_device_hint(DeviceHintContext {
        selector: ":1",
        name: Some("USB Mic"),
        available: Some(&devices),
    });
    assert!(hint.contains("USB Mic (:1)"));
    assert!(hint.ends_with("available input devices: A, B"));
}

#[test]
fn inputs_are_converted_or_refused() {
    assert!(require_input("a.mp4", true).is_ok());
    assert!(matches!(
        require_input("a.mp4", false),
        Err(ComlinkError::InputMissing(path)) if path == "a.mp4"
    ));
    let arguments = normalize_arguments("a.mp4", "b.wav");
    assert_eq!(arguments.len(), 14);
    assert_eq!(arguments[5], "a.mp4");
    assert_eq!(arguments[13], "b.wav");
    assert_eq!(normalized_duration(true, b"", Some(5)).unwrap(), 5);
    assert_eq!(normalized_duration(true, b"", None).unwrap(), 0);
    assert!(matches!(
        normalized_duration(false, b" no stream \n", Some(5)),
        Err(ComlinkError::FfmpegFailed(text)) if text == "no stream"
    ));
}
