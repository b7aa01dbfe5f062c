use chat_relay::messages::Message;
use chat_relay::registry::{new_name_validity, Delivery, RegisterError, Registry};

fn s(x: &str) -> String {
    x.to_string()
}

#[test]
fn register_and_look_up() {
    let mut r = Registry::new();
    assert_eq!(r.register(1, s("a:1")), Ok(()));
    assert_eq!(r.register(2, s("b:2")), Ok(()));
    assert!(r.contains(1));
    assert!(!r.contains(3));
    assert_eq!(r.name_of(2), Some(s("b:2")));
    assert_eq!(r.name_of(3), None);
}

#[test]
fn register_refuses_taken_identity_and_name() {
    let mut r = Registry::new();
    r.register(1, s("a")).unwrap();
    assert_eq!(r.register(1, s("z")), Err(RegisterError::IdentityTaken));
    assert_eq!(r.register(2, s("a")), Err(RegisterError::NameTaken));
    assert_eq!(r.name_of(1), Some(s("a")));
    assert!(!r.contains(2));
}

#[test]
fn rename_empty_is_denied_with_reason_zero() {
    let mut r = Registry::new();
    r.register(1, s("a")).unwrap();
    assert_eq!(r.rename(1, s("")), Err(0));
    assert_eq!(new_name_validity(&r, 1, &s("")), Err(0));
    assert_eq!(new_name_validity(&Registry::new(), 5, &s("")), Err(0));
    assert_eq!(r.name_of(1), Some(s("a")));
}

#[test]
fn rename_taken_is_denied_with_reason_one() {
    let mut r = Registry::new();
    r.register(1, s("a")).unwrap();
    r.register(2, s("b")).unwrap();
    assert_eq!(r.rename(2, s("a")), Err(1));
    assert_eq!(r.name_of(2), Some(s("b")));
}

#[test]
fn rename_free_name_is_approved() {
    let mut r = Registry::new();
    r.register(1, s("a")).unwrap();
    r.register(2, s("b")).unwrap();
    assert_eq!(r.rename(2, s("carol")), Ok(s("b")));
    assert_eq!(r.name_of(2), Some(s("carol")));
    assert_eq!(r.rename(1, s("b")), Ok(s("a")));
    assert_eq!(r.name_of(1), Some(s("b")));
}

#[test]
fn rename_to_own_name_is_approved() {
    let mut r = Registry::new();
    r.register(1, s("a")).unwrap();
    assert_eq!(r.rename(1, s("a")), Ok(s("a")));
    assert_eq!(r.name_of(1), Some(s("a")));
}

#[test]
fn names_stay_unique_through_a_sequence() {
    let mut r = Registry::new();
    r.register(1, s("x")).unwrap();
    r.register(2, s("y")).unwrap();
    assert_eq!(r.rename(1, s("y")), Err(1));
    assert_eq!(r.register(3, s("x")), Err(RegisterError::NameTaken));
    assert_eq!(r.remove(2), Some(s("y")));
    assert_eq!(r.rename(1, s("y")), Ok(s("x")));
    assert_eq!(r.register(3, s("x")), Ok(()));
    assert_ne!(r.name_of(1), r.name_of(3));
}

#[test]
fn remove_is_idempotent() {
    let mut r = Registry::new();
    r.register(1, s("a")).unwrap();
    assert_eq!(r.remove(1), Some(s("a")));
    assert_eq!(r.remove(1), None);
    assert!(!r.contains(1));
}

#[test]
fn broadcast_skips_the_excluded_identity() {
    let mut r = Registry::new();
    for (id, n) in [(1, "a"), (2, "b"), (3, "c")] {
        r.register(id, s(n)).unwrap();
    }
    let m = Message::ChatMessage(s("hi"));
    let mut to: Vec<u64> = r.broadcast(&m, Some(2)).iter().map(|d| d.to).collect();
    to.sort();
    assert_eq!(to, vec![1, 3]);
    let all = r.broadcast(&m, None);
    assert_eq!(all.len(), 3);
    assert!(all.iter().all(|d: &Delivery| d.message == m));
    let none = Registry::new().broadcast(&m, None);
    assert!(none.is_empty());
}
