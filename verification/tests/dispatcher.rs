use phonemic::dispatcher::{
    classify_message, decide_dispatch, has_reply, DispatchDecision, MessageRefusal, RoutedKind,
};
use phonemic::error_code::ErrorCode;

const ALL: [RoutedKind; 6] = [
    RoutedKind::Hello,
    RoutedKind::TextSubmit,
    RoutedKind::TextPreview,
    RoutedKind::AudioChunk,
    RoutedKind::AudioEnd,
    RoutedKind::Ping,
];

#[test]
fn invalid_json_yields_msg_bad_format() {
    assert_eq!(decide_dispatch(None, true), DispatchDecision::Reject(ErrorCode::MsgBadFormat));
    assert_eq!(decide_dispatch(None, false), DispatchDecision::Reject(ErrorCode::MsgBadFormat));
}

#[test]
fn unauthenticated_text_submit_yields_auth_required() {
    assert_eq!(
        decide_dispatch(Some(RoutedKind::TextSubmit), false),
        DispatchDecision::Reject(ErrorCode::AuthRequired)
    );
}

#[test]
fn hello_does_not_require_authenticated_session() {
    assert_eq!(decide_dispatch(Some(RoutedKind::Hello), false), DispatchDecision::Route(RoutedKind::Hello));
    assert!(has_reply(RoutedKind::Hello));
}

#[test]
fn ping_replies_with_pong() {
    assert_eq!(decide_dispatch(Some(RoutedKind::Ping), true), DispatchDecision::Route(RoutedKind::Ping));
    assert!(has_reply(RoutedKind::Ping));
}

#[test]
fn audio_chunk_routes_without_reply() {
    assert_eq!(
        decide_dispatch(Some(RoutedKind::AudioChunk), true),
        DispatchDecision::Route(RoutedKind::AudioChunk)
    );
    assert!(!has_reply(RoutedKind::AudioChunk));
}

#[test]
fn without_session_only_hello_gets_through() {
    for k in ALL {
        let d = decide_dispatch(Some(k), false);
        if k == RoutedKind::Hello {
            assert_eq!(d, DispatchDecision::Route(k));
        } else {
            assert_eq!(d, DispatchDecision::Reject(ErrorCode::AuthRequired));
        }
        assert_eq!(decide_dispatch(Some(k), true), DispatchDecision::Route(k));
    }
}

#[test]
fn default_dispatcher_applies_the_rule() {
    let d = phonemic::dispatcher::DefaultDispatcher;
    assert_eq!(d.handle(Some(RoutedKind::TextPreview), false), DispatchDecision::Reject(ErrorCode::AuthRequired));
    assert_eq!(d.handle(Some(RoutedKind::AudioEnd), true), DispatchDecision::Route(RoutedKind::AudioEnd));
}

#[test]
fn empty_text_submit_yields_msg_bad_format() {
    let classified = classify_message("text.submit", Some(""));
    assert_eq!(classified, Err(MessageRefusal::EmptyText));
    let outcome = decide_dispatch(classified.ok(), true);
    assert!(matches!(outcome, DispatchDecision::Reject(ErrorCode::MsgBadFormat)));
}

#[test]
fn messages_are_classified_by_type() {
    assert_eq!(classify_message("hello", None), Ok(RoutedKind::Hello));
    assert_eq!(classify_message("text.submit", Some("x")), Ok(RoutedKind::TextSubmit));
    assert_eq!(classify_message("text.submit", None), Err(MessageRefusal::EmptyText));
    assert_eq!(classify_message("text.preview", None), Ok(RoutedKind::TextPreview));
    assert_eq!(classify_message("audio.chunk", None), Ok(RoutedKind::AudioChunk));
    assert_eq!(classify_message("audio.end", None), Ok(RoutedKind::AudioEnd));
    assert_eq!(classify_message("ping", None), Ok(RoutedKind::Ping));
    assert_eq!(classify_message("pong", None), Err(MessageRefusal::UnknownType));
    assert_eq!(classify_message("Hello", None), Err(MessageRefusal::UnknownType));
}
