use pos_backend::events::{ChangeEvent, EntityKind, Operation};
use pos_backend::registry::Broadcaster;
use pos_backend::auth::{AdminAuth, Credential, Lookup};
use pos_backend::pin::hash_pin;

fn category_json(id: &str, name: &str) -> String {
    format!("{{\"category_id\":\"{}\",\"name\":\"{}\",\"sort_order\":1}}", id, name)
}

#[test]
fn register_hands_out_fresh_ids() {
    let mut b = Broadcaster::new();
    assert_eq!(b.session_count(), 0);
    let a = b.register();
    let c = b.register();
    assert_ne!(a, c);
    assert_eq!(b.session_count(), 2);
    b.unregister(a);
    let d = b.register();
    assert_ne!(d, a);
    assert_ne!(d, c);
    assert!(b.is_registered(c));
    assert!(b.is_registered(d));
    assert!(!b.is_registered(a));
    assert_eq!(b.next_id(), 3);
}

#[test]
fn broadcast_reaches_every_live_session_once_in_order() {
    let mut b = Broadcaster::new();
    let s1 = b.register();
    let s2 = b.register();
    let e1 = ChangeEvent::deleted(EntityKind::Item, "item100001");
    let e2 = ChangeEvent::deleted(EntityKind::Item, "item100002");
    b.broadcast(&e1);
    let s3 = b.register();
    b.broadcast(&e2);
    assert_eq!(b.take_pending(s1), vec![e1.to_wire(), e2.to_wire()]);
    assert_eq!(b.take_pending(s2), vec![e1.to_wire(), e2.to_wire()]);
    assert_eq!(b.take_pending(s3), vec![e2.to_wire()]);
    // drained queues stay empty until the next broadcast
    assert!(b.take_pending(s1).is_empty());
}

#[test]
fn unregistered_session_receives_nothing_more() {
    let mut b = Broadcaster::new();
    let s = b.register();
    let other = b.register();
    b.unregister(s);
    b.unregister(s);
    for _ in 0..5 {
        b.broadcast(&ChangeEvent::deleted(EntityKind::Staff, "x"));
    }
    assert!(!b.is_registered(s));
    assert!(b.take_pending(s).is_empty());
    assert_eq!(b.take_pending(other).len(), 5);
}

#[test]
fn failed_session_does_not_affect_others() {
    let mut b = Broadcaster::new();
    let a = b.register();
    let failing = b.register();
    let c = b.register();
    let e = ChangeEvent::deleted(EntityKind::Discount, "discount123456");
    b.broadcast(&e);
    // the writer of `failing` reports a transport error
    b.unregister(failing);
    b.broadcast(&e);
    assert_eq!(b.take_pending(a).len(), 2);
    assert_eq!(b.take_pending(c).len(), 2);
    assert!(b.take_pending(failing).is_empty());
    assert_eq!(b.session_count(), 2);
}

#[test]
fn broadcast_with_no_sessions_is_harmless() {
    let mut b = Broadcaster::new();
    b.broadcast(&ChangeEvent::deleted(EntityKind::Option, "option111111"));
    assert_eq!(b.session_count(), 0);
}

#[test]
fn end_to_end_category_create_then_update() {
    let admin_hash = hash_pin("1234");
    let lookup = |k: &str| -> Lookup {
        if k == admin_hash {
            Ok(Some(Credential { staff_id: "staff100000".to_string(), is_admin: true }))
        } else {
            Ok(None)
        }
    };
    let auth = AdminAuth::new();
    let mut b = Broadcaster::new();
    let client_a = b.register();

    assert_eq!(auth.check(Some("Bearer 1234"), &lookup), Ok(()));
    let created = ChangeEvent::new(EntityKind::Category, Operation::Created, category_json("category123456", "Beverages"));
    b.broadcast(&created);
    let got = b.take_pending(client_a);
    assert_eq!(got.len(), 1);
    assert!(got[0].starts_with("{\"CategoryCreated\":"));
    assert!(got[0].contains("\"name\":\"Beverages\""));

    b.unregister(client_a);
    let client_b = b.register();
    assert_eq!(auth.check(Some("Bearer 1234"), &lookup), Ok(()));
    let updated = ChangeEvent::new(EntityKind::Category, Operation::Updated, category_json("category123456", "Drinks"));
    b.broadcast(&updated);
    assert!(b.take_pending(client_a).is_empty());
    let got = b.take_pending(client_b);
    assert_eq!(got.len(), 1);
    assert!(got[0].starts_with("{\"CategoryUpdated\":"));
    assert!(got[0].contains("\"name\":\"Drinks\""));
}

#[test]
fn wire_text_frames_body_under_tag() {
    let e = ChangeEvent::new(EntityKind::Modifier, Operation::Updated, "{\"a\":1}".to_string());
    assert_eq!(e.tag(), "ModifierUpdated");
    assert_eq!(e.to_wire(), "{\"ModifierUpdated\":{\"a\":1}}");
}

#[test]
fn deletion_body_is_json_string_of_id() {
    let e = ChangeEvent::deleted(EntityKind::Category, "category123456");
    assert_eq!(e.op, Operation::Deleted);
    assert_eq!(e.body, "\"category123456\"");
    assert_eq!(e.to_wire(), "{\"CategoryDeleted\":\"category123456\"}");
    let q = ChangeEvent::deleted(EntityKind::Staff, "a\"b");
    assert_eq!(q.to_wire(), "{\"StaffDeleted\":\"a\\\"b\"}");
}

#[test]
fn shutdown_removes_every_session() {
    let mut b = Broadcaster::new();
    let a = b.register();
    let c = b.register();
    b.broadcast(&ChangeEvent::deleted(EntityKind::Item, "item123456"));
    let mut closed = b.shutdown();
    closed.sort();
    assert_eq!(closed, vec![a, c]);
    assert_eq!(b.session_count(), 0);
    assert!(b.take_pending(a).is_empty());
    let d = b.register();
    assert!(d != a && d != c);
}

#[test]
fn deletion_body_escapes_control_and_special_characters() {
    let e = ChangeEvent::deleted(EntityKind::Item, "a\\b\nc\u{1}d\u{e9}");
    assert_eq!(e.body, "\"a\\\\b\\nc\\u0001d\u{e9}\"");
    let t = ChangeEvent::deleted(EntityKind::Item, "\t\r\u{8}\u{c}\u{1f}");
    assert_eq!(t.body, "\"\\t\\r\\b\\f\\u001f\"");
}
