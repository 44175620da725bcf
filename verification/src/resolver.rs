//! MediaResolver: picks the one attachment an update is worth fetching for.
//!
//! Precedence: a document beats photos, photos beat a video; among photo
//! size variants the largest resolution wins, which is the last entry of the
//! ascending ladder. A pure-text update resolves to nothing, which is not an
//! error: the dispatcher simply takes no media action.

use vstd::prelude::*;

use crate::update::{AttachmentKind, AttachmentRef, InboundUpdate, MediaAttachments};

verus! {

/// What `resolve` returns on a given attachment set, as a function of the
/// input alone.
pub open spec fn spec_resolve_media(m: &MediaAttachments) -> Option<AttachmentRef> {
    if m.document is Some {
        Some(
            AttachmentRef {
                kind: AttachmentKind::Document,
                file_id: m.document->Some_0.file_id,
            },
        )
    } else if m.photos.len() > 0 {
        Some(
            AttachmentRef {
                kind: AttachmentKind::Photo,
                file_id: m.photos@[m.photos.len() - 1].file_id,
            },
        )
    } else if m.video is Some {
        Some(AttachmentRef { kind: AttachmentKind::Video, file_id: m.video->Some_0.file_id })
    } else {
        None
    }
}

/// What `resolve` returns on a given update, as a function of the input alone.
pub open spec fn spec_resolve(u: &InboundUpdate) -> Option<AttachmentRef> {
    match u {
        InboundUpdate::TextMessage { .. } => None,
        InboundUpdate::ChannelPost { media, .. } => spec_resolve_media(media),
        InboundUpdate::MediaMessage { media, .. } => spec_resolve_media(media),
    }
}

fn resolve_media(m: &MediaAttachments) -> (r: Option<AttachmentRef>)
    ensures
        r == spec_resolve_media(m),
{
    match &m.document {
        Some(d) => Some(
            AttachmentRef { kind: AttachmentKind::Document, file_id: d.file_id.clone() },
        ),
        None => {
            if m.photos.len() > 0 {
                let best = &m.photos[m.photos.len() - 1];
                Some(AttachmentRef { kind: AttachmentKind::Photo, file_id: best.file_id.clone() })
            } else {
                match &m.video {
                    Some(v) => Some(
                        AttachmentRef { kind: AttachmentKind::Video, file_id: v.file_id.clone() },
                    ),
                    None => None,
                }
            }
        },
    }
}

/// Classify an update: the attachment to fetch, or `None` when the update is
/// pure text or carries nothing supported. No side effects of any kind.
pub fn resolve(u: &InboundUpdate) -> (r: Option<AttachmentRef>)
    ensures
        r == spec_resolve(u),
{
    match u {
        InboundUpdate::TextMessage { .. } => None,
        InboundUpdate::ChannelPost { media, .. } => resolve_media(media),
        InboundUpdate::MediaMessage { media, .. } => resolve_media(media),
    }
}

/// Classification is a pure function of the update: any two results that
/// `resolve`'s contract admits for the same input are the same result, so
/// calling it twice yields the same answer.
pub proof fn lemma_resolve_pure(
    u: &InboundUpdate,
    r1: Option<AttachmentRef>,
    r2: Option<AttachmentRef>,
)
    requires
        r1 == spec_resolve(u),
        r2 == spec_resolve(u),
    ensures
        r1 == r2,
{
}

/// A document wins over any photos attached beside it.
pub proof fn lemma_document_priority(m: &MediaAttachments)
    requires
        m.document is Some,
    ensures
        spec_resolve_media(m) matches Some(r) && r.kind == AttachmentKind::Document
            && r.file_id == m.document->Some_0.file_id,
{
}

/// Without a document, the largest photo wins: the last entry of the
/// ascending size ladder.
pub proof fn lemma_largest_photo(m: &MediaAttachments)
    requires
        m.document is None,
        m.photos.len() > 0,
    ensures
        spec_resolve_media(m) matches Some(r) && r.kind == AttachmentKind::Photo
            && r.file_id == m.photos@.last().file_id,
{
}

} // verus!
