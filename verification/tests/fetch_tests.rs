use media_relay::fetch::{
    FetchAction, FetchError, FetchMode, FetchState, FileFetcher, MediaPayload,
};

fn action_url(a: &FetchAction) -> Option<&str> {
    match a {
        FetchAction::HttpGet { url } => Some(url.as_str()),
        FetchAction::Finished => None,
    }
}

#[test]
fn bytes_mode_issues_exactly_two_calls() {
    let (mut f, a1) = FileFetcher::begin("TOK".to_string(), FetchMode::Bytes, "FID");
    let mut calls = 0;
    if action_url(&a1).is_some() {
        calls += 1;
    }
    assert_eq!(
        action_url(&a1).unwrap(),
        "https://api.telegram.org/botTOK/getFile?file_id=FID"
    );
    let a2 = f.on_metadata(true, "{\"ok\":true,\"result\":{\"file_path\":\"videos/file_1.mp4\"}}");
    if action_url(&a2).is_some() {
        calls += 1;
    }
    assert_eq!(
        action_url(&a2).unwrap(),
        "https://api.telegram.org/file/botTOK/videos/file_1.mp4"
    );
    let a3 = f.on_download(true, vec![9, 8, 7]);
    if action_url(&a3).is_some() {
        calls += 1;
    }
    assert_eq!(calls, 2);
    match f.state {
        FetchState::Done { outcome: Ok(MediaPayload::Bytes(b)) } => assert_eq!(b, vec![9, 8, 7]),
        _ => panic!("expected downloaded bytes"),
    }
}

#[test]
fn remote_url_mode_issues_exactly_one_call() {
    let (mut f, a1) = FileFetcher::begin("TOK".to_string(), FetchMode::RemoteUrl, "FID");
    let mut calls = 0;
    if action_url(&a1).is_some() {
        calls += 1;
    }
    let a2 = f.on_metadata(true, "{\"ok\":true,\"result\":{\"file_path\":\"videos/v.mp4\"}}");
    if action_url(&a2).is_some() {
        calls += 1;
    }
    assert_eq!(calls, 1);
    match f.state {
        FetchState::Done { outcome: Ok(MediaPayload::RemoteUrl(u)) } => {
            assert_eq!(u, "https://api.telegram.org/file/botTOK/videos/v.mp4");
        },
        _ => panic!("expected a download url"),
    }
}

#[test]
fn not_ok_reply_is_metadata_error_and_no_download() {
    let (mut f, _a1) = FileFetcher::begin("TOK".to_string(), FetchMode::Bytes, "FID");
    let a2 = f.on_metadata(true, "{\"ok\":false,\"error_code\":400}");
    assert!(action_url(&a2).is_none());
    assert!(matches!(
        f.state,
        FetchState::Done { outcome: Err(FetchError::MetadataError) }
    ));
}

#[test]
fn failed_status_is_metadata_error() {
    let (mut f, _a1) = FileFetcher::begin("TOK".to_string(), FetchMode::Bytes, "FID");
    let a2 = f.on_metadata(false, "{\"ok\":true,\"result\":{\"file_path\":\"x\"}}");
    assert!(action_url(&a2).is_none());
    assert!(matches!(
        f.state,
        FetchState::Done { outcome: Err(FetchError::MetadataError) }
    ));
}

#[test]
fn malformed_body_is_metadata_error() {
    let (mut f, _a1) = FileFetcher::begin("TOK".to_string(), FetchMode::Bytes, "FID");
    let _ = f.on_metadata(true, "not json at all");
    assert!(matches!(
        f.state,
        FetchState::Done { outcome: Err(FetchError::MetadataError) }
    ));
}

#[test]
fn missing_file_path_is_metadata_error() {
    let (mut f, _a1) = FileFetcher::begin("TOK".to_string(), FetchMode::Bytes, "FID");
    let _ = f.on_metadata(true, "{\"ok\":true,\"result\":{}}");
    assert!(matches!(
        f.state,
        FetchState::Done { outcome: Err(FetchError::MetadataError) }
    ));
}

#[test]
fn empty_download_is_download_error() {
    let (mut f, _a1) = FileFetcher::begin("TOK".to_string(), FetchMode::Bytes, "FID");
    let _ = f.on_metadata(true, "{\"ok\":true,\"result\":{\"file_path\":\"v.mp4\"}}");
    let a3 = f.on_download(true, vec![]);
    assert!(action_url(&a3).is_none());
    assert!(matches!(
        f.state,
        FetchState::Done { outcome: Err(FetchError::DownloadError) }
    ));
}

#[test]
fn failed_download_status_is_download_error() {
    let (mut f, _a1) = FileFetcher::begin("TOK".to_string(), FetchMode::Bytes, "FID");
    let _ = f.on_metadata(true, "{\"ok\":true,\"result\":{\"file_path\":\"v.mp4\"}}");
    let _ = f.on_download(false, vec![1]);
    assert!(matches!(
        f.state,
        FetchState::Done { outcome: Err(FetchError::DownloadError) }
    ));
}
