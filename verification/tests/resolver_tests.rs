use media_relay::resolver::resolve;
use media_relay::update::{
    AttachmentKind, FileRef, InboundUpdate, MediaAttachments, PhotoSize,
};

fn file_ref(id: &str) -> FileRef {
    FileRef { file_id: id.to_string(), size_hint: None, mime_hint: None }
}

fn media_update(media: MediaAttachments) -> InboundUpdate {
    InboundUpdate::MediaMessage { chat_id: 7, text: None, media }
}

#[test]
fn resolve_is_pure() {
    let u = media_update(MediaAttachments {
        document: None,
        photos: vec![
            PhotoSize { file_id: "p1".to_string(), resolution: 100 },
            PhotoSize { file_id: "p2".to_string(), resolution: 300 },
        ],
        video: None,
    });
    let a = resolve(&u).unwrap();
    let b = resolve(&u).unwrap();
    assert_eq!(a.kind, b.kind);
    assert_eq!(a.file_id, b.file_id);
}

#[test]
fn document_beats_photos() {
    let u = media_update(MediaAttachments {
        document: Some(file_ref("doc9")),
        photos: vec![
            PhotoSize { file_id: "p100".to_string(), resolution: 100 },
            PhotoSize { file_id: "p900".to_string(), resolution: 900 },
        ],
        video: None,
    });
    let r = resolve(&u).unwrap();
    assert_eq!(r.kind, AttachmentKind::Document);
    assert_eq!(r.file_id, "doc9");
}

#[test]
fn largest_photo_wins() {
    let u = media_update(MediaAttachments {
        document: None,
        photos: vec![
            PhotoSize { file_id: "p100".to_string(), resolution: 100 },
            PhotoSize { file_id: "p300".to_string(), resolution: 300 },
            PhotoSize { file_id: "p900".to_string(), resolution: 900 },
        ],
        video: None,
    });
    let r = resolve(&u).unwrap();
    assert_eq!(r.kind, AttachmentKind::Photo);
    assert_eq!(r.file_id, "p900");
}

#[test]
fn video_when_nothing_else() {
    let u = media_update(MediaAttachments {
        document: None,
        photos: vec![],
        video: Some(file_ref("vid3")),
    });
    let r = resolve(&u).unwrap();
    assert_eq!(r.kind, AttachmentKind::Video);
    assert_eq!(r.file_id, "vid3");
}

#[test]
fn pure_text_resolves_to_none() {
    let u = InboundUpdate::TextMessage { chat_id: 1, text: "hello".to_string() };
    assert!(resolve(&u).is_none());
}

#[test]
fn empty_media_resolves_to_none() {
    let u = media_update(MediaAttachments { document: None, photos: vec![], video: None });
    assert!(resolve(&u).is_none());
}

#[test]
fn channel_post_video_resolves() {
    let u = InboundUpdate::ChannelPost {
        chat_id: -100,
        text: Some("caption".to_string()),
        media: MediaAttachments { document: None, photos: vec![], video: Some(file_ref("cv")) },
    };
    let r = resolve(&u).unwrap();
    assert_eq!(r.kind, AttachmentKind::Video);
    assert_eq!(r.file_id, "cv");
}
