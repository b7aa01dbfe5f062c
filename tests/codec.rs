use chat_relay::messages::Message;

fn all_messages() -> Vec<Message> {
    vec![
        Message::NameAssignment("127.0.0.1:4000".to_string()),
        Message::NameAssignment(String::new()),
        Message::ChatMessage("hello, wörld ✓".to_string()),
        Message::ChatMessageError(7),
        Message::NameChangeRequest("alice".to_string()),
        Message::NameChangeApproval,
        Message::NameChangeDenial(1),
        Message::Disconnect,
    ]
}

#[test]
fn round_trip_every_variant() {
    for m in all_messages() {
        assert_eq!(Message::from_bytes(&m.to_bytes()), Some(m));
    }
}

#[test]
fn message_type_tags() {
    let tags: Vec<u8> = all_messages().iter().map(|m| m.message_type()).collect();
    assert_eq!(tags, vec![0, 0, 64, 65, 128, 129, 130, 255]);
}

#[test]
fn encoding_is_tag_then_body() {
    assert_eq!(Message::NameAssignment("ab".to_string()).to_bytes(), vec![0, 97, 98]);
    assert_eq!(Message::ChatMessage("é".to_string()).to_bytes(), vec![64, 0xc3, 0xa9]);
    assert_eq!(Message::ChatMessageError(9).to_bytes(), vec![65, 9]);
    assert_eq!(Message::NameChangeRequest("x".to_string()).to_bytes(), vec![128, 120]);
    assert_eq!(Message::NameChangeApproval.to_bytes(), vec![129]);
    assert_eq!(Message::NameChangeDenial(0).to_bytes(), vec![130, 0]);
    assert_eq!(Message::Disconnect.to_bytes(), vec![255]);
}

#[test]
fn decode_reads_utf8_text() {
    assert_eq!(
        Message::from_bytes(&[128, 0xc3, 0xa9, 0x21]),
        Some(Message::NameChangeRequest("é!".to_string()))
    );
    assert_eq!(Message::from_bytes(&[64]), Some(Message::ChatMessage(String::new())));
}

#[test]
fn decode_rejects_empty() {
    assert_eq!(Message::from_bytes(&[]), None);
}

#[test]
fn decode_rejects_unknown_tag() {
    assert_eq!(Message::from_bytes(&[1]), None);
    assert_eq!(Message::from_bytes(&[200, 1]), None);
}

#[test]
fn decode_rejects_invalid_utf8() {
    assert_eq!(Message::from_bytes(&[0, 0xff]), None);
    assert_eq!(Message::from_bytes(&[64, 0xc3]), None);
    assert_eq!(Message::from_bytes(&[128, 0x80, 0x41]), None);
}

#[test]
fn decode_rejects_wrong_body_length() {
    assert_eq!(Message::from_bytes(&[130]), None);
    assert_eq!(Message::from_bytes(&[130, 1, 2]), None);
    assert_eq!(Message::from_bytes(&[65]), None);
    assert_eq!(Message::from_bytes(&[129, 0]), None);
    assert_eq!(Message::from_bytes(&[255, 255]), None);
}

#[test]
fn decode_does_not_stop_at_zero_byte() {
    assert_eq!(
        Message::from_bytes(&[64, 97, 0, 98]),
        Some(Message::ChatMessage("a\0b".to_string()))
    );
}
