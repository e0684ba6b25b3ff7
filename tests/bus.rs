use l2_login::bus::{can_enqueue, PendingRequests, SendStep};
use l2_login::controller::Login;
use l2_login::handlers::on_gs_disconnect;

#[test]
fn reply_resolves_its_request_once() {
    let mut p: PendingRequests<u32> = PendingRequests::new();
    assert_eq!(p.record("alice".to_string(), 10, 1), Ok(()));
    assert_eq!(p.take_reply("alice"), Some(1));
    assert_eq!(p.take_reply("alice"), None);
    assert_eq!(p.len(), 0);
}

#[test]
fn duplicate_id_comes_back_at_once() {
    let mut p: PendingRequests<u32> = PendingRequests::new();
    assert_eq!(p.record("alice".to_string(), 10, 1), Ok(()));
    assert_eq!(p.record("alice".to_string(), 11, 2), Err(2));
    assert_eq!(p.len(), 1);
    assert_eq!(p.take_reply("alice"), Some(1));
}

#[test]
fn disconnect_resolves_everything_pending() {
    let mut l = Login::new(None);
    let mut p: PendingRequests<u32> = PendingRequests::new();
    p.record("alice".to_string(), 1, 1).unwrap();
    p.record("bob".to_string(), 2, 2).unwrap();
    let ended = on_gs_disconnect(&mut l, Some(2), &mut p);
    assert_eq!(ended, vec![1, 2]);
    assert_eq!(p.len(), 0);
    assert_eq!(p.take_reply("alice"), None);
}

#[test]
fn stale_requests_expire_in_order() {
    let mut p: PendingRequests<&str> = PendingRequests::new();
    p.record("a".to_string(), 0, "a").unwrap();
    p.record("b".to_string(), 50, "b").unwrap();
    p.record("c".to_string(), 5, "c").unwrap();
    assert_eq!(p.expire(60, 20), vec!["a", "c"]);
    assert_eq!(p.len(), 1);
    assert_eq!(p.take_reply("b"), Some("b"));
}

#[test]
fn queue_is_bounded() {
    assert!(can_enqueue(0));
    assert!(can_enqueue(99));
    assert!(!can_enqueue(100));
}

#[test]
fn duplicate_is_caught_before_sending() {
    let mut p: PendingRequests<u32> = PendingRequests::new();
    assert_eq!(p.next_step("alice"), SendStep::Send);
    p.record("alice".to_string(), 1, 1).unwrap();
    assert_eq!(p.next_step("alice"), SendStep::Duplicate);
    assert_eq!(p.next_step("bob"), SendStep::Send);
}
