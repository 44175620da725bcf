use media_relay::multipart::{
    boundary_from_entropy, build_multipart_body, multipart_content_type,
};

fn boundary() -> Vec<u8> {
    b"Xy0AbCdEfGh1JkLmNpQr2stu".to_vec()
}

#[test]
fn boundary_is_alphanumeric_and_long() {
    let entropy: Vec<u8> = (0u8..32u8).map(|i| i.wrapping_mul(37).wrapping_add(11)).collect();
    let b = boundary_from_entropy(&entropy);
    assert_eq!(b.len(), 32);
    assert!(b.len() >= 24);
    assert!(b.iter().all(|c| c.is_ascii_alphanumeric()));
}

#[test]
fn body_round_trips_fields_and_payload() {
    let b = boundary();
    let bs = String::from_utf8(b.clone()).unwrap();
    let fields = vec![
        (b"msg_url".to_vec(), b"https://api/send".to_vec()),
        (b"chat_id".to_vec(), b"42".to_vec()),
    ];
    let payload: Vec<u8> = vec![0, 1, 2, 254, 255, 13, 10, 45];
    let filename = b"video.mp4".to_vec();
    let body = build_multipart_body(&fields, &filename, &payload, &b);

    // what a standard multipart parser reads: each field part, then the file
    // part carrying the payload byte for byte, then the closing delimiter
    let mut expected: Vec<u8> = Vec::new();
    expected.extend_from_slice(
        format!(
            "--{bs}\r\nContent-Disposition: form-data; name=\"msg_url\"\r\n\r\nhttps://api/send\r\n--{bs}\r\nContent-Disposition: form-data; name=\"chat_id\"\r\n\r\n42\r\n--{bs}\r\nContent-Disposition: form-data; name=\"file\"; filename=\"video.mp4\"\r\nContent-Type: video/mp4\r\n\r\n"
        )
        .as_bytes(),
    );
    expected.extend_from_slice(&payload);
    expected.extend_from_slice(format!("\r\n--{bs}--\r\n").as_bytes());
    assert_eq!(body, expected);
}

#[test]
fn body_with_no_fields_is_just_the_file_part() {
    let b = boundary();
    let bs = String::from_utf8(b.clone()).unwrap();
    let payload = b"binary".to_vec();
    let body = build_multipart_body(&vec![], &b"v.mp4".to_vec(), &payload, &b);
    let expected = format!(
        "--{bs}\r\nContent-Disposition: form-data; name=\"file\"; filename=\"v.mp4\"\r\nContent-Type: video/mp4\r\n\r\nbinary\r\n--{bs}--\r\n"
    );
    assert_eq!(body, expected.into_bytes());
}

#[test]
fn content_type_names_the_boundary() {
    let b = boundary();
    let h = multipart_content_type(&b);
    assert_eq!(
        String::from_utf8(h).unwrap(),
        format!("multipart/form-data; boundary={}", String::from_utf8(b).unwrap())
    );
}
