//! The data model of one inbound chat-platform update.

use vstd::prelude::*;

verus! {

/// A platform file handle: the opaque identifier the platform assigned to an
/// uploaded document or video, with the optional hints the update carried.
pub struct FileRef {
    pub file_id: String,
    pub size_hint: Option<u64>,
    pub mime_hint: Option<String>,
}

/// One entry of a photo's size ladder.
pub struct PhotoSize {
    pub file_id: String,
    /// Resolution hint; the ladder is ordered by ascending resolution.
    pub resolution: u64,
}

/// The attachments a media-bearing update may carry. A single update can
/// hold several kinds at once (a document with preview photos, say); the
/// resolver decides which one wins.
pub struct MediaAttachments {
    pub document: Option<FileRef>,
    /// Size variants of one photo, ordered by ascending resolution.
    pub photos: Vec<PhotoSize>,
    pub video: Option<FileRef>,
}

/// One inbound event from the chat platform. Immutable; built by the
/// platform integration layer per incoming event and discarded afterwards.
#[allow(inconsistent_fields)]
pub enum InboundUpdate {
    TextMessage { chat_id: i64, text: String },
    ChannelPost { chat_id: i64, text: Option<String>, media: MediaAttachments },
    MediaMessage { chat_id: i64, text: Option<String>, media: MediaAttachments },
}

impl InboundUpdate {
    /// The chat the update originated from, where any reply must go.
    pub open spec fn spec_chat_id(&self) -> i64 {
        match self {
            InboundUpdate::TextMessage { chat_id, .. } => *chat_id,
            InboundUpdate::ChannelPost { chat_id, .. } => *chat_id,
            InboundUpdate::MediaMessage { chat_id, .. } => *chat_id,
        }
    }

    /// The text the update carries, if any.
    pub open spec fn spec_text(&self) -> Option<Seq<char>> {
        match self {
            InboundUpdate::TextMessage { text, .. } => Some(text@),
            InboundUpdate::ChannelPost { text: Some(t), .. } => Some(t@),
            InboundUpdate::MediaMessage { text: Some(t), .. } => Some(t@),
            _ => None,
        }
    }

    pub fn chat_id(&self) -> (r: i64)
        ensures
            r == self.spec_chat_id(),
    {
        match self {
            InboundUpdate::TextMessage { chat_id, .. } => *chat_id,
            InboundUpdate::ChannelPost { chat_id, .. } => *chat_id,
            InboundUpdate::MediaMessage { chat_id, .. } => *chat_id,
        }
    }
}

/// Which kind of attachment the resolver selected.
#[derive(PartialEq, Eq, Structural, Clone, Copy, Debug)]
pub enum AttachmentKind {
    Document,
    Photo,
    Video,
}

/// The resolver's answer: the one attachment worth fetching.
pub struct AttachmentRef {
    pub kind: AttachmentKind,
    pub file_id: String,
}

} // verus!
