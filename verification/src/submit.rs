//! ExternalServiceAdapter: request bodies for the downstream processing
//! service. Two interchangeable strategies share one fixed parameter table
//! (target language, voice profile, result-type flag — deployment constants,
//! never per-update choices) and differ only in payload encoding: the
//! url-reference strategy posts one form-urlencoded body, the multipart
//! strategy uploads the binary itself (see `multipart`).

use vstd::prelude::*;
use vstd::string::StrSliceExecFns;
use vstd::string::StringSliceAdditionalSpecFns;

use crate::fetch::FetchMode;
use crate::urlencode::{encode_pairs, form_body_of, pairs_view};

verus! {

/// Which request encoding the deployment submits with; selected once per
/// deployment, not per request.
#[derive(PartialEq, Eq, Structural, Clone, Copy, Debug)]
pub enum AdapterStrategy {
    UrlReference,
    MultipartUpload,
}

/// Which payload form each strategy consumes, and so how far the retrieval
/// protocol must go: a url-reference post sends the download url and never
/// transfers the binary twice; a multipart upload needs the bytes themselves.
pub open spec fn spec_strategy_mode(s: AdapterStrategy) -> FetchMode {
    match s {
        AdapterStrategy::UrlReference => FetchMode::RemoteUrl,
        AdapterStrategy::MultipartUpload => FetchMode::Bytes,
    }
}

/// The fetch mode the active strategy asks of the file fetcher.
pub fn strategy_mode(s: AdapterStrategy) -> (r: FetchMode)
    ensures
        r == spec_strategy_mode(s),
{
    match s {
        AdapterStrategy::UrlReference => FetchMode::RemoteUrl,
        AdapterStrategy::MultipartUpload => FetchMode::Bytes,
    }
}

/// A transport-level failure contacting the downstream service; terminal for
/// the update. Service-reported failures arrive as ordinary response text.
#[derive(PartialEq, Eq, Structural, Clone, Copy, Debug)]
pub enum SubmitError {
    Transport,
}

/// The pair list of a url-reference submission that reports back by mail:
/// the payload reference plus the fixed parameter table.
pub open spec fn by_url_pairs(url: Seq<u8>, email: Seq<u8>) -> Seq<(Seq<u8>, Seq<u8>)> {
    seq![
        (("url").spec_bytes(), url),
        (("email_link").spec_bytes(), email),
        (("resultType").spec_bytes(), ("1").spec_bytes()),
        (("soundId").spec_bytes(), ("59cb5986671546eaa6ca8ae6f29f6d22").spec_bytes()),
        (("language").spec_bytes(), ("zh").spec_bytes()),
    ]
}

/// The pair list of a url-reference submission that reports back to the
/// originating chat: payload reference, reply route, then the fixed table.
pub open spec fn with_return_pairs(url: Seq<u8>, msg_url: Seq<u8>, chat_id: Seq<u8>) -> Seq<
    (Seq<u8>, Seq<u8>),
> {
    seq![
        (("url").spec_bytes(), url),
        (("msg_url").spec_bytes(), msg_url),
        (("chat_id").spec_bytes(), chat_id),
        (("resultType").spec_bytes(), ("1").spec_bytes()),
        (("soundId").spec_bytes(), ("59cb5986671546eaa6ca8ae6f29f6d22").spec_bytes()),
        (("language").spec_bytes(), ("zh").spec_bytes()),
    ]
}

/// The fixed parameters stand in every url-reference pair list, whatever the
/// caller supplied: they are adapter-level defaults, not caller input.
pub proof fn lemma_fixed_params_present(url: Seq<u8>, email: Seq<u8>)
    ensures
        by_url_pairs(url, email).contains((("resultType").spec_bytes(), ("1").spec_bytes())),
        by_url_pairs(url, email).contains(
            (("soundId").spec_bytes(), ("59cb5986671546eaa6ca8ae6f29f6d22").spec_bytes()),
        ),
        by_url_pairs(url, email).contains((("language").spec_bytes(), ("zh").spec_bytes())),
{
    assert(by_url_pairs(url, email)[2] == (("resultType").spec_bytes(), ("1").spec_bytes()));
    assert(by_url_pairs(url, email)[3] == (
        ("soundId").spec_bytes(),
        ("59cb5986671546eaa6ca8ae6f29f6d22").spec_bytes(),
    ));
    assert(by_url_pairs(url, email)[4] == (("language").spec_bytes(), ("zh").spec_bytes()));
}

/// As `lemma_fixed_params_present`, for the chat-return pair list.
pub proof fn lemma_fixed_params_present_with_return(
    url: Seq<u8>,
    msg_url: Seq<u8>,
    chat_id: Seq<u8>,
)
    ensures
        with_return_pairs(url, msg_url, chat_id).contains(
            (("resultType").spec_bytes(), ("1").spec_bytes()),
        ),
        with_return_pairs(url, msg_url, chat_id).contains(
            (("soundId").spec_bytes(), ("59cb5986671546eaa6ca8ae6f29f6d22").spec_bytes()),
        ),
        with_return_pairs(url, msg_url, chat_id).contains(
            (("language").spec_bytes(), ("zh").spec_bytes()),
        ),
{
    assert(with_return_pairs(url, msg_url, chat_id)[3] == (
        ("resultType").spec_bytes(),
        ("1").spec_bytes(),
    ));
    assert(with_return_pairs(url, msg_url, chat_id)[4] == (
        ("soundId").spec_bytes(),
        ("59cb5986671546eaa6ca8ae6f29f6d22").spec_bytes(),
    ));
    assert(with_return_pairs(url, msg_url, chat_id)[5] == (
        ("language").spec_bytes(),
        ("zh").spec_bytes(),
    ));
}

/// The fixed fields of a multipart submission that reports back to the chat:
/// the reply route plus the same fixed parameter table. The binary payload
/// travels as the file part beside them, not as a field.
pub open spec fn multipart_return_fields(msg_url: Seq<u8>, chat_id: Seq<u8>) -> Seq<
    (Seq<u8>, Seq<u8>),
> {
    seq![
        (("msg_url").spec_bytes(), msg_url),
        (("chat_id").spec_bytes(), chat_id),
        (("resultType").spec_bytes(), ("1").spec_bytes()),
        (("soundId").spec_bytes(), ("59cb5986671546eaa6ca8ae6f29f6d22").spec_bytes()),
        (("language").spec_bytes(), ("zh").spec_bytes()),
    ]
}

/// The field list a multipart submission carries beside the payload.
pub fn multipart_fields_with_return(msg_url: &str, chat_id: &str) -> (r: Vec<(Vec<u8>, Vec<u8>)>)
    ensures
        pairs_view(r@) == multipart_return_fields(msg_url.spec_bytes(), chat_id.spec_bytes()),
{
    let mut pairs: Vec<(Vec<u8>, Vec<u8>)> = Vec::new();
    pairs.push((("msg_url").as_bytes_vec(), msg_url.as_bytes_vec()));
    pairs.push((("chat_id").as_bytes_vec(), chat_id.as_bytes_vec()));
    pairs.push((("resultType").as_bytes_vec(), ("1").as_bytes_vec()));
    pairs.push((("soundId").as_bytes_vec(), ("59cb5986671546eaa6ca8ae6f29f6d22").as_bytes_vec()));
    pairs.push((("language").as_bytes_vec(), ("zh").as_bytes_vec()));
    proof {
        assert(pairs_view(pairs@) =~= multipart_return_fields(
            msg_url.spec_bytes(),
            chat_id.spec_bytes(),
        ));
    }
    pairs
}

/// The form body of a url-reference submission that reports back by mail.
pub fn form_body_by_url(video_url: &str, email: &str) -> (r: Vec<u8>)
    ensures
        r@ == form_body_of(by_url_pairs(video_url.spec_bytes(), email.spec_bytes())),
{
    let mut pairs: Vec<(Vec<u8>, Vec<u8>)> = Vec::new();
    pairs.push((("url").as_bytes_vec(), video_url.as_bytes_vec()));
    pairs.push((("email_link").as_bytes_vec(), email.as_bytes_vec()));
    pairs.push((("resultType").as_bytes_vec(), ("1").as_bytes_vec()));
    pairs.push((("soundId").as_bytes_vec(), ("59cb5986671546eaa6ca8ae6f29f6d22").as_bytes_vec()));
    pairs.push((("language").as_bytes_vec(), ("zh").as_bytes_vec()));
    let r = encode_pairs(&pairs);
    proof {
        assert(pairs_view(pairs@) =~= by_url_pairs(video_url.spec_bytes(), email.spec_bytes()));
    }
    r
}

/// The form body of a url-reference submission that reports back to the chat.
pub fn form_body_with_return(video_url: &str, msg_url: &str, chat_id: &str) -> (r: Vec<u8>)
    ensures
        r@ == form_body_of(
            with_return_pairs(video_url.spec_bytes(), msg_url.spec_bytes(), chat_id.spec_bytes()),
        ),
{
    let mut pairs: Vec<(Vec<u8>, Vec<u8>)> = Vec::new();
    pairs.push((("url").as_bytes_vec(), video_url.as_bytes_vec()));
    pairs.push((("msg_url").as_bytes_vec(), msg_url.as_bytes_vec()));
    pairs.push((("chat_id").as_bytes_vec(), chat_id.as_bytes_vec()));
    pairs.push((("resultType").as_bytes_vec(), ("1").as_bytes_vec()));
    pairs.push((("soundId").as_bytes_vec(), ("59cb5986671546eaa6ca8ae6f29f6d22").as_bytes_vec()));
    pairs.push((("language").as_bytes_vec(), ("zh").as_bytes_vec()));
    let r = encode_pairs(&pairs);
    proof {
        assert(pairs_view(pairs@) =~= with_return_pairs(
            video_url.spec_bytes(),
            msg_url.spec_bytes(),
            chat_id.spec_bytes(),
        ));
    }
    r
}

} // verus!
