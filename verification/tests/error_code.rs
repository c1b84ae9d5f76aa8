use phonemic::error_code::{code_to_i18n_key, i18n_key_for, ErrorCode};

#[test]
fn code_to_i18n_key_covers_every_variant() {
    for code in ErrorCode::all() {
        let key = code_to_i18n_key(code);
        assert!(key.starts_with("error."));
        assert!(key.ends_with(code.as_str()));
    }
}

#[test]
fn code_to_i18n_key_covers_every_error_variant() {
    let all = ErrorCode::all();
    assert_eq!(all.len(), 15);
    for code in all {
        let key = code_to_i18n_key(code);
        assert_eq!(key, format!("error.{}", code.as_str()));
    }
}

#[test]
fn wire_texts_are_screaming_snake_case() {
    assert_eq!(ErrorCode::PairRatelimit.as_str(), "PAIR_RATELIMIT");
    assert_eq!(ErrorCode::InjectNoFocusTarget.as_str(), "INJECT_NO_FOCUS_TARGET");
    assert_eq!(code_to_i18n_key(ErrorCode::AsrTimeout), "error.ASR_TIMEOUT");
    for code in ErrorCode::all() {
        assert!(code.as_str().bytes().all(|b| b.is_ascii_uppercase() || b == b'_'));
    }
}

#[test]
fn parse_reads_back_every_wire_text() {
    for code in ErrorCode::all() {
        assert_eq!(ErrorCode::parse(code.as_str()), Some(code));
    }
    assert_eq!(ErrorCode::parse("pair_invalid"), None);
    assert_eq!(ErrorCode::parse(""), None);
}

#[test]
fn i18n_key_for_unknown_text_is_none() {
    assert_eq!(i18n_key_for("NOT_A_CODE"), None);
    assert_eq!(i18n_key_for("LAN_LOST").as_deref(), Some("error.LAN_LOST"));
}
