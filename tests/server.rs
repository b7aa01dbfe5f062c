use chat_relay::messages::Message;
use chat_relay::registry::{Delivery, Registry};
use chat_relay::server::{handle_connect, handle_frame, handle_lost, note_violation, ProtocolError};

const A: u64 = 10;
const B: u64 = 20;

fn d(to: u64, message: Message) -> Delivery {
    Delivery { to, message }
}

fn chat(x: &str) -> Message {
    Message::ChatMessage(x.to_string())
}

#[test]
fn relay_session_between_two_clients() {
    let mut r = Registry::new();

    let out = handle_connect(&mut r, A, "A_addr".to_string());
    assert_eq!(out, vec![d(A, Message::NameAssignment("A_addr".to_string()))]);

    let out = handle_connect(&mut r, B, "B_addr".to_string());
    assert_eq!(
        out,
        vec![d(B, Message::NameAssignment("B_addr".to_string())), d(A, chat("B_addr joined"))]
    );

    let out = handle_frame(&mut r, B, &chat("hi").to_bytes()).unwrap();
    assert_eq!(out, vec![d(A, chat("B_addr: hi"))]);

    let req = Message::NameChangeRequest("alice".to_string()).to_bytes();
    let out = handle_frame(&mut r, A, &req).unwrap();
    assert_eq!(
        out,
        vec![d(A, Message::NameChangeApproval), d(B, chat("A_addr is now known as alice"))]
    );
    assert_eq!(r.name_of(A), Some("alice".to_string()));

    let out = handle_frame(&mut r, B, &req).unwrap();
    assert_eq!(out, vec![d(B, Message::NameChangeDenial(1))]);
    assert_eq!(r.name_of(B), Some("B_addr".to_string()));

    let out = handle_frame(&mut r, A, &Message::Disconnect.to_bytes()).unwrap();
    assert_eq!(out, vec![d(B, chat("alice disconnected"))]);
    assert!(!r.contains(A));
    assert!(r.contains(B));
}

#[test]
fn empty_name_request_is_denied_with_reason_zero() {
    let mut r = Registry::new();
    handle_connect(&mut r, A, "a".to_string());
    let req = Message::NameChangeRequest(String::new()).to_bytes();
    let out = handle_frame(&mut r, A, &req).unwrap();
    assert_eq!(out, vec![d(A, Message::NameChangeDenial(0))]);
}

#[test]
fn malformed_frame_is_refused() {
    let mut r = Registry::new();
    handle_connect(&mut r, A, "a".to_string());
    handle_connect(&mut r, B, "b".to_string());
    assert_eq!(handle_frame(&mut r, A, &[]), Err(ProtocolError::Malformed));
    assert_eq!(handle_frame(&mut r, A, &[64, 0xff]), Err(ProtocolError::Malformed));
    assert_eq!(handle_frame(&mut r, A, &[7]), Err(ProtocolError::Malformed));
    assert!(r.contains(A) && r.contains(B));
}

#[test]
fn server_only_messages_from_a_client_are_refused() {
    let mut r = Registry::new();
    handle_connect(&mut r, A, "a".to_string());
    for m in [
        Message::NameAssignment("x".to_string()),
        Message::ChatMessageError(3),
        Message::NameChangeApproval,
        Message::NameChangeDenial(1),
    ] {
        assert_eq!(handle_frame(&mut r, A, &m.to_bytes()), Err(ProtocolError::Unexpected));
    }
    assert_eq!(r.name_of(A), Some("a".to_string()));
}

#[test]
fn lost_connection_is_announced() {
    let mut r = Registry::new();
    handle_connect(&mut r, A, "a".to_string());
    handle_connect(&mut r, B, "b".to_string());
    assert_eq!(handle_lost(&mut r, B), vec![d(A, chat("b disconnected"))]);
    assert!(!r.contains(B));
    assert_eq!(handle_lost(&mut r, B), vec![]);
}

#[test]
fn connect_with_a_held_name_is_turned_away() {
    let mut r = Registry::new();
    handle_connect(&mut r, A, "a".to_string());
    let req = Message::NameChangeRequest("10.0.0.2:99".to_string()).to_bytes();
    handle_frame(&mut r, A, &req).unwrap();
    let out = handle_connect(&mut r, B, "10.0.0.2:99".to_string());
    assert_eq!(out, vec![d(B, Message::Disconnect)]);
    assert!(!r.contains(B));
    assert_eq!(handle_connect(&mut r, A, "z".to_string()), vec![d(A, Message::Disconnect)]);
}

#[test]
fn chat_goes_to_everyone_but_the_sender() {
    let mut r = Registry::new();
    for (id, n) in [(1, "one"), (2, "two"), (3, "three")] {
        handle_connect(&mut r, id, n.to_string());
    }
    let out = handle_frame(&mut r, 2, &chat("yo").to_bytes()).unwrap();
    let mut to: Vec<u64> = out.iter().map(|x| x.to).collect();
    to.sort();
    assert_eq!(to, vec![1, 3]);
    assert!(out.iter().all(|x| x.message == chat("two: yo")));
}

#[test]
fn violations_are_counted_up_to_the_limit() {
    assert_eq!(note_violation(0), (1, false));
    assert_eq!(note_violation(1), (2, false));
    assert_eq!(note_violation(2), (3, true));
    assert_eq!(note_violation(u32::MAX), (u32::MAX, true));
}
