use media_relay::dispatch::{
    dispatch_step, DispatchAction, DispatchEvent, DispatchState, DispatcherConfig,
};
use media_relay::fetch::{FetchError, MediaPayload};
use media_relay::submit::SubmitError;
use media_relay::update::{FileRef, InboundUpdate, MediaAttachments};

fn config() -> DispatcherConfig {
    DispatcherConfig {
        welcome_text: "welcome!".to_string(),
        failure_notice: "processing failed, sorry".to_string(),
        plain_ack: None,
    }
}

fn video_update(chat_id: i64) -> InboundUpdate {
    InboundUpdate::MediaMessage {
        chat_id,
        text: None,
        media: MediaAttachments {
            document: None,
            photos: vec![],
            video: Some(FileRef {
                file_id: "vid".to_string(),
                size_hint: None,
                mime_hint: None,
            }),
        },
    }
}

fn sends(a: &DispatchAction) -> usize {
    match a {
        DispatchAction::SendText { .. } => 1,
        _ => 0,
    }
}

#[test]
fn start_command_replies_welcome_and_skips_pipeline() {
    let cfg = config();
    let u = InboundUpdate::TextMessage { chat_id: 5, text: "/start".to_string() };
    let (s, a) = dispatch_step(&cfg, DispatchState::Classifying, DispatchEvent::Received {
        update: u,
    });
    assert!(matches!(s, DispatchState::Idle));
    match a {
        DispatchAction::SendText { chat_id, text } => {
            assert_eq!(chat_id, 5);
            assert_eq!(text, "welcome!");
        },
        _ => panic!("the start command must reply with the welcome text"),
    }
}

#[test]
fn start_command_in_media_message_still_shortcuts() {
    let cfg = config();
    let u = InboundUpdate::MediaMessage {
        chat_id: 2,
        text: Some("/start".to_string()),
        media: MediaAttachments {
            document: None,
            photos: vec![],
            video: Some(FileRef {
                file_id: "v".to_string(),
                size_hint: None,
                mime_hint: None,
            }),
        },
    };
    let (s, a) = dispatch_step(&cfg, DispatchState::Classifying, DispatchEvent::Received {
        update: u,
    });
    assert!(matches!(s, DispatchState::Idle));
    assert!(matches!(a, DispatchAction::SendText { .. }));
}

#[test]
fn happy_path_sends_exactly_one_reply() {
    let cfg = config();
    let mut replies = 0;
    let (s1, a1) = dispatch_step(&cfg, DispatchState::Classifying, DispatchEvent::Received {
        update: video_update(9),
    });
    replies += sends(&a1);
    assert!(matches!(s1, DispatchState::Fetching { chat_id: 9 }));
    assert!(matches!(a1, DispatchAction::BeginFetch { chat_id: 9, .. }));
    let (s2, a2) = dispatch_step(&cfg, s1, DispatchEvent::Fetched {
        outcome: Ok(MediaPayload::RemoteUrl("https://f/v.mp4".to_string())),
    });
    replies += sends(&a2);
    assert!(matches!(s2, DispatchState::Submitting { chat_id: 9 }));
    let (s3, a3) = dispatch_step(&cfg, s2, DispatchEvent::Submitted {
        outcome: Ok("translated!".to_string()),
    });
    replies += sends(&a3);
    match &a3 {
        DispatchAction::SendText { chat_id, text } => {
            assert_eq!(*chat_id, 9);
            assert_eq!(text, "translated!");
        },
        _ => panic!("the service response must be relayed"),
    }
    let (s4, a4) = dispatch_step(&cfg, s3, DispatchEvent::Relayed);
    replies += sends(&a4);
    assert!(matches!(s4, DispatchState::Idle));
    assert_eq!(replies, 1);
}

#[test]
fn fetch_failure_sends_exactly_one_notice() {
    let cfg = config();
    let mut replies = 0;
    let (s1, a1) = dispatch_step(&cfg, DispatchState::Classifying, DispatchEvent::Received {
        update: video_update(4),
    });
    replies += sends(&a1);
    let (s2, a2) = dispatch_step(&cfg, s1, DispatchEvent::Fetched {
        outcome: Err(FetchError::MetadataError),
    });
    replies += sends(&a2);
    match &a2 {
        DispatchAction::SendText { chat_id, text } => {
            assert_eq!(*chat_id, 4);
            assert_eq!(text, "processing failed, sorry");
        },
        _ => panic!("a fetch failure must relay the failure notice"),
    }
    let (s3, a3) = dispatch_step(&cfg, s2, DispatchEvent::Relayed);
    replies += sends(&a3);
    assert!(matches!(s3, DispatchState::Idle));
    assert_eq!(replies, 1);
}

#[test]
fn submit_failure_sends_exactly_one_notice() {
    let cfg = config();
    let mut replies = 0;
    let (s1, _) = dispatch_step(&cfg, DispatchState::Classifying, DispatchEvent::Received {
        update: video_update(4),
    });
    let (s2, a2) = dispatch_step(&cfg, s1, DispatchEvent::Fetched {
        outcome: Ok(MediaPayload::Bytes(vec![1, 2])),
    });
    replies += sends(&a2);
    let (s3, a3) = dispatch_step(&cfg, s2, DispatchEvent::Submitted {
        outcome: Err(SubmitError::Transport),
    });
    replies += sends(&a3);
    assert!(matches!(
        &a3,
        DispatchAction::SendText { chat_id: 4, .. }
    ));
    let (s4, a4) = dispatch_step(&cfg, s3, DispatchEvent::Relayed);
    replies += sends(&a4);
    assert!(matches!(s4, DispatchState::Idle));
    assert_eq!(replies, 1);
}

#[test]
fn plain_text_without_ack_stays_silent() {
    let cfg = config();
    let u = InboundUpdate::TextMessage { chat_id: 1, text: "hello".to_string() };
    let (s, a) = dispatch_step(&cfg, DispatchState::Classifying, DispatchEvent::Received {
        update: u,
    });
    assert!(matches!(s, DispatchState::Idle));
    assert!(matches!(a, DispatchAction::NoAction));
}

#[test]
fn plain_text_with_configured_ack_sends_it() {
    let mut cfg = config();
    cfg.plain_ack = Some("received msg".to_string());
    let u = InboundUpdate::TextMessage { chat_id: 1, text: "hello".to_string() };
    let (s, a) = dispatch_step(&cfg, DispatchState::Classifying, DispatchEvent::Received {
        update: u,
    });
    assert!(matches!(s, DispatchState::Idle));
    match a {
        DispatchAction::SendText { chat_id, text } => {
            assert_eq!(chat_id, 1);
            assert_eq!(text, "received msg");
        },
        _ => panic!("the configured acknowledgment must be sent"),
    }
}
