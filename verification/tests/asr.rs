use phonemic::asr::{pick_asr_engine, AsrError, AsrTarget, AudioCodec, AudioFrame, NoopAsr, WhisperAsr, WhisperConfig};

#[test]
fn pick_asr_engine_returns_browser_only_when_supported_and_not_preferring_server() {
    assert_eq!(pick_asr_engine(true, false), AsrTarget::Browser);
    assert_eq!(pick_asr_engine(true, true), AsrTarget::Server);
    assert_eq!(pick_asr_engine(false, false), AsrTarget::Server);
    assert_eq!(pick_asr_engine(false, true), AsrTarget::Server);
}

#[test]
fn noop_asr_returns_engine_disabled_in_default_features() {
    let asr = NoopAsr;
    let frame = AudioFrame { codec: AudioCodec::Pcm16k, payload: Vec::new(), ts_ms: 0 };
    assert_eq!(asr.feed(&frame).unwrap_err(), AsrError::EngineDisabled);
    assert_eq!(asr.end_error(), AsrError::EngineDisabled);
    assert_eq!(AsrError::EngineDisabled.to_string(), "ASR_ENGINE_DISABLED: whisper feature not compiled in");
}

#[test]
fn new_returns_init_error_when_model_missing() {
    let cfg = WhisperConfig {
        model_path: r"D:\definitely\does\not\exist\model.bin".to_string(),
        language: None,
    };
    let err = WhisperAsr::new(cfg).unwrap_err();
    assert!(matches!(err, AsrError::InitError(_)));
}

#[test]
fn checked_model_accepts_frames_and_reports_pending_end() {
    let cfg = WhisperConfig { model_path: "m.bin".to_string(), language: Some("zh".into()) };
    let mut w = WhisperAsr::from_checked(cfg, true).expect("model found");
    assert_eq!(w.config().model_path, "m.bin");
    let frame = AudioFrame { codec: AudioCodec::Pcm16k, payload: vec![0x01, 0x02, 0xFF], ts_ms: 5 };
    assert!(w.feed(&frame).is_ok());
    match w.end_error() {
        AsrError::InitError(m) => assert!(m.ends_with("model_path = m.bin")),
        other => panic!("unexpected {other:?}"),
    }
    let missing = WhisperAsr::from_checked(WhisperConfig { model_path: "x".into(), language: None }, false);
    assert_eq!(missing.unwrap_err(), AsrError::InitError("model file not found: x".to_string()));
}
