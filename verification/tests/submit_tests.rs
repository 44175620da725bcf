use media_relay::fetch::FetchMode;
use media_relay::submit::{
    form_body_by_url, form_body_with_return, multipart_fields_with_return, strategy_mode,
    AdapterStrategy,
};

#[test]
fn with_return_body_exact() {
    let body = form_body_with_return("u", "m", "c");
    assert_eq!(
        String::from_utf8(body).unwrap(),
        "url=u&msg_url=m&chat_id=c&resultType=1&soundId=59cb5986671546eaa6ca8ae6f29f6d22&language=zh"
    );
}

#[test]
fn with_return_body_matches_reference_serializer() {
    let video = "https://api.telegram.org/file/botT/videos/file_1.mp4";
    let msg_url = "https://api.telegram.org/botT/sendMessage";
    let chat = "-1001234";
    let body = form_body_with_return(video, msg_url, chat);
    let reference = form_urlencoded::Serializer::new(String::new())
        .append_pair("url", video)
        .append_pair("msg_url", msg_url)
        .append_pair("chat_id", chat)
        .append_pair("resultType", "1")
        .append_pair("soundId", "59cb5986671546eaa6ca8ae6f29f6d22")
        .append_pair("language", "zh")
        .finish();
    assert_eq!(body, reference.into_bytes());
}

#[test]
fn by_url_body_matches_reference_serializer() {
    let video = "https://ex.com/v.mp4?sig=a&b=ü";
    let email = "user+tag@example.com";
    let body = form_body_by_url(video, email);
    let reference = form_urlencoded::Serializer::new(String::new())
        .append_pair("url", video)
        .append_pair("email_link", email)
        .append_pair("resultType", "1")
        .append_pair("soundId", "59cb5986671546eaa6ca8ae6f29f6d22")
        .append_pair("language", "zh")
        .finish();
    assert_eq!(body, reference.into_bytes());
}

#[test]
fn fixed_params_always_present() {
    let body = String::from_utf8(form_body_by_url("", "")).unwrap();
    assert!(body.contains("resultType=1"));
    assert!(body.contains("soundId=59cb5986671546eaa6ca8ae6f29f6d22"));
    assert!(body.contains("language=zh"));
}

#[test]
fn strategy_fixes_the_fetch_mode() {
    assert_eq!(strategy_mode(AdapterStrategy::UrlReference), FetchMode::RemoteUrl);
    assert_eq!(strategy_mode(AdapterStrategy::MultipartUpload), FetchMode::Bytes);
}

#[test]
fn multipart_fields_carry_fixed_params() {
    let fields = multipart_fields_with_return("m", "c");
    assert_eq!(fields.len(), 5);
    assert_eq!(fields[0], (b"msg_url".to_vec(), b"m".to_vec()));
    assert_eq!(fields[1], (b"chat_id".to_vec(), b"c".to_vec()));
    assert_eq!(fields[2], (b"resultType".to_vec(), b"1".to_vec()));
    assert_eq!(
        fields[3],
        (b"soundId".to_vec(), b"59cb5986671546eaa6ca8ae6f29f6d22".to_vec())
    );
    assert_eq!(fields[4], (b"language".to_vec(), b"zh".to_vec()));
}
