//! FileFetcher: the platform's two-call file retrieval protocol.
//!
//! First call: `GET {base}/bot{token}/getFile?file_id={id}`, whose JSON reply
//! carries `ok` and `result.file_path`. Second call (only when the deployment
//! submits binary payloads): `GET` on the download url built from that path.
//! The machine here only decides; the caller performs each `HttpGet` action
//! it is handed and feeds the response back in as plain values.

use vstd::prelude::*;
use vstd::string::StringExecFns;

verus! {

/// Which payload form the active submit strategy consumes, and so how far the
/// retrieval protocol must go: one call for a reference, two for the bytes.
#[derive(PartialEq, Eq, Structural, Clone, Copy, Debug)]
pub enum FetchMode {
    RemoteUrl,
    Bytes,
}

/// Why a fetch ended without a payload. Terminal for the update either way;
/// no step is retried.
#[derive(PartialEq, Eq, Structural, Clone, Copy, Debug)]
pub enum FetchError {
    /// The metadata lookup failed, reported `ok: false`, or lacked
    /// `result.file_path`.
    MetadataError,
    /// The binary download failed or returned an empty body.
    DownloadError,
}

/// What a successful fetch hands the submit strategy: exactly one of the two
/// forms, fixed by the active `FetchMode`.
pub enum MediaPayload {
    Bytes(Vec<u8>),
    RemoteUrl(String),
}

/// Spec-level image of a `MediaPayload`.
pub enum MediaPayloadV {
    Bytes(Seq<u8>),
    RemoteUrl(Seq<char>),
}

impl View for MediaPayload {
    type V = MediaPayloadV;

    open spec fn view(&self) -> MediaPayloadV {
        match self {
            MediaPayload::Bytes(b) => MediaPayloadV::Bytes(b@),
            MediaPayload::RemoteUrl(u) => MediaPayloadV::RemoteUrl(u@),
        }
    }
}

/// Where the protocol stands for one update.
pub enum FetchState {
    AwaitingMetadata,
    AwaitingDownload { url: String },
    Done { outcome: Result<MediaPayload, FetchError> },
}

/// Spec-level image of a `FetchState`.
pub enum FetchStateV {
    AwaitingMetadata,
    AwaitingDownload { url: Seq<char> },
    Done { outcome: Result<MediaPayloadV, FetchError> },
}

impl View for FetchState {
    type V = FetchStateV;

    open spec fn view(&self) -> FetchStateV {
        match self {
            FetchState::AwaitingMetadata => FetchStateV::AwaitingMetadata,
            FetchState::AwaitingDownload { url } => FetchStateV::AwaitingDownload { url: url@ },
            FetchState::Done { outcome: Ok(p) } => FetchStateV::Done { outcome: Ok(p@) },
            FetchState::Done { outcome: Err(e) } => FetchStateV::Done { outcome: Err(*e) },
        }
    }
}

/// What the machine asks its caller to do next.
pub enum FetchAction {
    HttpGet { url: String },
    Finished,
}

/// Spec-level image of a `FetchAction`.
pub enum FetchActionV {
    HttpGet { url: Seq<char> },
    Finished,
}

impl View for FetchAction {
    type V = FetchActionV;

    open spec fn view(&self) -> FetchActionV {
        match self {
            FetchAction::HttpGet { url } => FetchActionV::HttpGet { url: url@ },
            FetchAction::Finished => FetchActionV::Finished,
        }
    }
}

/// How many outbound calls an action asks for.
pub open spec fn http_calls(a: FetchActionV) -> nat {
    match a {
        FetchActionV::HttpGet { .. } => 1,
        FetchActionV::Finished => 0,
    }
}

/// The metadata lookup url of the platform file API.
pub open spec fn spec_get_file_url(token: Seq<char>, file_id: Seq<char>) -> Seq<char> {
    ("https://api.telegram.org/bot")@ + token + ("/getFile?file_id=")@ + file_id
}

/// The transient download url built from a metadata reply's `file_path`.
pub open spec fn spec_download_url(token: Seq<char>, file_path: Seq<char>) -> Seq<char> {
    ("https://api.telegram.org/file/bot")@ + token + ("/")@ + file_path
}

/// Build the metadata lookup url.
pub fn get_file_url(token: &str, file_id: &str) -> (r: String)
    ensures
        r@ == spec_get_file_url(token@, file_id@),
{
    let mut s = ("https://api.telegram.org/bot").to_owned();
    s.append(token);
    s.append("/getFile?file_id=");
    s.append(file_id);
    s
}

/// Build the download url for a resolved file path.
pub fn download_url(token: &str, file_path: &str) -> (r: String)
    ensures
        r@ == spec_download_url(token@, file_path@),
{
    let mut s = ("https://api.telegram.org/file/bot").to_owned();
    s.append(token);
    s.append("/");
    s.append(file_path);
    s
}

/// What the platform's metadata reply decodes to: `None` when the body is not
/// the expected JSON shape, else the `ok` flag and the optional
/// `result.file_path`. A function of the body text alone.
pub uninterp spec fn file_api_reply_of(body: Seq<char>) -> Option<(bool, Option<Seq<char>>)>;

/// The view of a decoded metadata reply.
pub open spec fn reply_view(r: Option<(bool, Option<String>)>) -> Option<(bool, Option<Seq<char>>)> {
    match r {
        None => None,
        Some((ok, None)) => Some((ok, None)),
        Some((ok, Some(p))) => Some((ok, Some(p@))),
    }
}

/// Relies on `serde_json::from_str` decoding the body into a
/// `serde_json::Value` and on that value's accessors; the decode is a
/// function of the body text alone.
#[verifier::external_body]
fn parse_file_api_response(body: &str) -> (r: Option<(bool, Option<String>)>)
    ensures
        reply_view(r) == file_api_reply_of(body@),
{
    let v: serde_json::Value = match serde_json::from_str(body) {
        Ok(v) => v,
        Err(_) => return None,
    };
    let ok = match v.get("ok").and_then(serde_json::Value::as_bool) {
        Some(b) => b,
        None => return None,
    };
    let path = match v.get("result") {
        Some(r) => r.get("file_path").and_then(serde_json::Value::as_str),
        None => None,
    };
    Some((ok, path.map(str::to_string)))
}

/// How a fetch begins: remember the token, ask for the metadata call.
pub open spec fn spec_fetch_begin(token: Seq<char>, file_id: Seq<char>) -> (
    FetchStateV,
    FetchActionV,
) {
    (FetchStateV::AwaitingMetadata, FetchActionV::HttpGet { url: spec_get_file_url(token, file_id) })
}

/// What the metadata reply decides: the download url on success, a terminal
/// `MetadataError` when the call failed, reported `ok: false`, or lacked the
/// file path.
pub open spec fn spec_metadata_outcome(
    token: Seq<char>,
    status_ok: bool,
    reply: Option<(bool, Option<Seq<char>>)>,
) -> Result<Seq<char>, FetchError> {
    if !status_ok {
        Err(FetchError::MetadataError)
    } else {
        match reply {
            Some((true, Some(path))) => Ok(spec_download_url(token, path)),
            _ => Err(FetchError::MetadataError),
        }
    }
}

/// The transition out of `AwaitingMetadata`: on success, either finish with
/// the reference (one call total) or ask for the download (a second call).
pub open spec fn spec_on_metadata(
    token: Seq<char>,
    mode: FetchMode,
    status_ok: bool,
    reply: Option<(bool, Option<Seq<char>>)>,
) -> (FetchStateV, FetchActionV) {
    match spec_metadata_outcome(token, status_ok, reply) {
        Err(e) => (FetchStateV::Done { outcome: Err(e) }, FetchActionV::Finished),
        Ok(url) => match mode {
            FetchMode::RemoteUrl => (
                FetchStateV::Done { outcome: Ok(MediaPayloadV::RemoteUrl(url)) },
                FetchActionV::Finished,
            ),
            FetchMode::Bytes => (
                FetchStateV::AwaitingDownload { url },
                FetchActionV::HttpGet { url },
            ),
        },
    }
}

/// The transition out of `AwaitingDownload`: the bytes on success, a terminal
/// `DownloadError` on a failed call or an empty body.
pub open spec fn spec_on_download(status_ok: bool, body: Seq<u8>) -> (FetchStateV, FetchActionV) {
    if status_ok && body.len() > 0 {
        (FetchStateV::Done { outcome: Ok(MediaPayloadV::Bytes(body)) }, FetchActionV::Finished)
    } else {
        (
            FetchStateV::Done { outcome: Err(FetchError::DownloadError) },
            FetchActionV::Finished,
        )
    }
}

/// One file retrieval in flight: the bot token, the payload form the
/// deployment wants, and where the protocol stands.
pub struct FileFetcher {
    pub token: String,
    pub mode: FetchMode,
    pub state: FetchState,
}

impl FileFetcher {
    /// Start retrieving one file: the returned action is the metadata call.
    pub fn begin(token: String, mode: FetchMode, file_id: &str) -> (r: (FileFetcher, FetchAction))
        ensures
            (r.0.state@, r.1@) == spec_fetch_begin(token@, file_id@),
            r.0.token == token,
            r.0.mode == mode,
    {
        let url = get_file_url(token.as_str(), file_id);
        (
            FileFetcher { token, mode, state: FetchState::AwaitingMetadata },
            FetchAction::HttpGet { url },
        )
    }

    /// Feed in the metadata call's result: its HTTP status and raw body.
    pub fn on_metadata(&mut self, status_ok: bool, body: &str) -> (a: FetchAction)
        requires
            old(self).state is AwaitingMetadata,
        ensures
            (final(self).state@, a@) == spec_on_metadata(
                old(self).token@,
                old(self).mode,
                status_ok,
                file_api_reply_of(body@),
            ),
            final(self).token == old(self).token,
            final(self).mode == old(self).mode,
    {
        if !status_ok {
            self.state = FetchState::Done { outcome: Err(FetchError::MetadataError) };
            return FetchAction::Finished;
        }
        let parsed = parse_file_api_response(body);
        match parsed {
            Some((true, Some(path))) => {
                let url = download_url(self.token.as_str(), path.as_str());
                match self.mode {
                    FetchMode::RemoteUrl => {
                        self.state = FetchState::Done {
                            outcome: Ok(MediaPayload::RemoteUrl(url)),
                        };
                        FetchAction::Finished
                    },
                    FetchMode::Bytes => {
                        let url2 = url.clone();
                        self.state = FetchState::AwaitingDownload { url };
                        FetchAction::HttpGet { url: url2 }
                    },
                }
            },
            _ => {
                self.state = FetchState::Done { outcome: Err(FetchError::MetadataError) };
                FetchAction::Finished
            },
        }
    }

    /// Feed in the download call's result: its HTTP status and raw body.
    pub fn on_download(&mut self, status_ok: bool, body: Vec<u8>) -> (a: FetchAction)
        requires
            old(self).state is AwaitingDownload,
        ensures
            (final(self).state@, a@) == spec_on_download(status_ok, body@),
            final(self).token == old(self).token,
            final(self).mode == old(self).mode,
    {
        if status_ok && body.len() > 0 {
            self.state = FetchState::Done { outcome: Ok(MediaPayload::Bytes(body)) };
            FetchAction::Finished
        } else {
            self.state = FetchState::Done { outcome: Err(FetchError::DownloadError) };
            FetchAction::Finished
        }
    }
}

/// Two-call fetch: on a well-formed metadata reply and a non-empty download,
/// Bytes mode issues exactly two outbound calls (metadata then download) and
/// RemoteUrl mode exactly one, both ending `Done` with a payload.
pub proof fn lemma_fetch_call_counts(
    token: Seq<char>,
    file_id: Seq<char>,
    reply: Option<(bool, Option<Seq<char>>)>,
    dl_body: Seq<u8>,
)
    requires
        reply matches Some((true, Some(_))),
        dl_body.len() > 0,
    ensures
        ({
            let (s1, a1) = spec_fetch_begin(token, file_id);
            let (s2, a2) = spec_on_metadata(token, FetchMode::Bytes, true, reply);
            let (s3, a3) = spec_on_download(true, dl_body);
            &&& s1 is AwaitingMetadata
            &&& s2 is AwaitingDownload
            &&& s3 matches FetchStateV::Done { outcome: Ok(_) }
            &&& http_calls(a1) + http_calls(a2) + http_calls(a3) == 2
        }),
        ({
            let (s1, a1) = spec_fetch_begin(token, file_id);
            let (s2, a2) = spec_on_metadata(token, FetchMode::RemoteUrl, true, reply);
            &&& s2 matches FetchStateV::Done { outcome: Ok(_) }
            &&& http_calls(a1) + http_calls(a2) == 1
        }),
{
}

/// Fetch failure containment: a metadata reply with `ok: false` (or a failed
/// or malformed lookup) ends the fetch with `MetadataError` at once — no
/// download call is asked for in any mode.
pub proof fn lemma_metadata_failure_contained(
    token: Seq<char>,
    mode: FetchMode,
    status_ok: bool,
    reply: Option<(bool, Option<Seq<char>>)>,
)
    requires
        !status_ok || !(reply matches Some((true, Some(_)))),
    ensures
        spec_on_metadata(token, mode, status_ok, reply) == (
            FetchStateV::Done { outcome: Err::<MediaPayloadV, FetchError>(FetchError::MetadataError) },
            FetchActionV::Finished,
        ),
{
}

} // verus!
