use distmutex::arbiter::{parse_text_message, RequestType};

#[test]
fn request_message_is_split_at_the_separator() {
    let r = parse_text_message(&b"worker-1|REQ".to_vec());
    assert_eq!(r, Some((b"worker-1".to_vec(), RequestType::Request)));
}

#[test]
fn release_message_yields_release() {
    let r = parse_text_message(&b"worker-1|REL".to_vec());
    assert_eq!(r, Some((b"worker-1".to_vec(), RequestType::Release)));
}

#[test]
fn second_field_must_be_exactly_req() {
    assert_eq!(
        parse_text_message(&b"a|REQUEST".to_vec()),
        Some((b"a".to_vec(), RequestType::Release))
    );
    assert_eq!(
        parse_text_message(&b"a|RE".to_vec()),
        Some((b"a".to_vec(), RequestType::Release))
    );
    assert_eq!(
        parse_text_message(&b"a|REQ|extra".to_vec()),
        Some((b"a".to_vec(), RequestType::Request))
    );
}

#[test]
fn message_without_separator_is_refused() {
    assert_eq!(parse_text_message(&b"justaname".to_vec()), None);
    assert_eq!(parse_text_message(&b"".to_vec()), None);
}

#[test]
fn name_is_everything_before_the_first_separator() {
    let r = parse_text_message(&b"a|b|REQ".to_vec());
    assert_eq!(r, Some((b"a".to_vec(), RequestType::Release)));
}
