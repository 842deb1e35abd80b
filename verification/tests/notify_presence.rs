use karu_core::model::Profile;
use karu_core::presence::{PresenceTracker, LAST_SEEN_THROTTLE_MILLIS, PRESENCE_TTL_MILLIS};
use karu_core::registry::ConnectionRegistry;
use karu_core::send::{DraftPayload, SendMessageRequest};
use karu_core::session::{ClientFrame, SessionAction, SessionState, SignalKind};
use karu_core::store::Store;

fn profile(user_id: u64, username: &str) -> Profile {
    Profile {
        user_id,
        username: String::from(username),
        full_name: None,
        avatar_url: None,
        public_key: None,
        is_verified: true,
        blocked_users: Vec::new(),
        muted_chats: Vec::new(),
        last_seen_at: None,
        last_location: None,
    }
}

fn text_draft(content: &str) -> SendMessageRequest {
    SendMessageRequest {
        content: String::from(content),
        attachment_url: None,
        attachment_type: None,
        reply_to_id: None,
        encrypted_content: None,
        encryption_iv: None,
        payload: DraftPayload::Text,
        is_view_once: None,
    }
}

#[test]
fn create_notification_skips_self_and_blocked() {
    let mut store = Store::new();
    assert!(store.add_profile(profile(1, "alice")));
    let mut bob = profile(2, "bob");
    bob.blocked_users.push(1);
    assert!(store.add_profile(bob));
    // self-notification: skipped
    assert_eq!(
        store.create_notification(1, 1, String::from("like"), None, String::from("x"), 10),
        None
    );
    // recipient has blocked the actor: skipped
    assert_eq!(
        store.create_notification(2, 1, String::from("like"), None, String::from("x"), 10),
        None
    );
    // the other direction works
    let id = store
        .create_notification(1, 2, String::from("like"), Some(7), String::from("liked it"), 10)
        .unwrap();
    assert_eq!(store.notifications.len(), 1);
    assert_eq!(store.notifications[0].id, id);
    assert_eq!(store.notifications[0].user_id, 1);
    assert!(!store.notifications[0].is_read);
}

#[test]
fn send_fans_out_to_other_participants_only() {
    let mut store = Store::new();
    assert!(store.add_profile(profile(1, "alice")));
    assert!(store.add_profile(profile(2, "bob")));
    assert!(store.add_profile(profile(3, "carol")));
    let gid = store
        .create_group(
            1,
            String::from("g"),
            vec![String::from("bob"), String::from("carol")],
            10,
        )
        .unwrap();
    let receipt = store.send_message(gid, 1, text_draft("hello"), 20).unwrap();
    assert_eq!(receipt.recipients, vec![2, 3]);
    assert_eq!(store.notifications.len(), 2);
    assert_eq!(store.notifications[0].user_id, 2);
    assert_eq!(store.notifications[1].user_id, 3);
    assert_eq!(store.notifications[0].content, "sent a message to g");
    assert_eq!(store.notifications[0].notification_type, "message");
    assert_eq!(store.notifications[0].target_id, Some(gid));
}

#[test]
fn blocked_recipient_gets_push_target_but_no_notification() {
    let mut store = Store::new();
    assert!(store.add_profile(profile(1, "alice")));
    assert!(store.add_profile(profile(2, "bob")));
    let mut carol = profile(3, "carol");
    carol.blocked_users.push(1);
    assert!(store.add_profile(carol));
    let gid = store
        .create_group(
            1,
            String::from("g"),
            vec![String::from("bob"), String::from("carol")],
            10,
        )
        .unwrap();
    let receipt = store.send_message(gid, 1, text_draft("hello"), 20).unwrap();
    assert_eq!(receipt.recipients, vec![2, 3]);
    assert_eq!(store.notifications.len(), 1);
    assert_eq!(store.notifications[0].user_id, 2);
}

#[test]
fn notification_read_flips_and_listing_renders() {
    let mut store = Store::new();
    assert!(store.add_profile(profile(1, "alice")));
    assert!(store.add_profile(profile(2, "bob")));
    let n1 = store
        .create_notification(1, 2, String::from("like"), Some(5), String::from("liked"), 10)
        .unwrap();
    let _n2 = store
        .create_notification(1, 2, String::from("comment"), None, String::from("replied"), 11)
        .unwrap();
    store.mark_notification_read(n1, 1).unwrap();
    assert!(store.notifications[0].is_read);
    assert!(!store.notifications[1].is_read);
    // a stranger cannot flip someone else's notification
    store.mark_notification_read(store.notifications[1].id, 9).unwrap();
    assert!(!store.notifications[1].is_read);
    store.mark_all_notifications_read(1).unwrap();
    assert!(store.notifications[1].is_read);
    // the listing runs newest first
    let listed = store.list_notifications(1);
    assert_eq!(listed.len(), 2);
    assert_eq!(listed[0].actor_username, "bob");
    assert_eq!(listed[0].created_at, 11);
    assert_eq!(listed[0].target_id, None);
    assert_eq!(listed[1].created_at, 10);
    assert_eq!(listed[1].target_id.as_deref(), Some("0000000000000005"));
    assert_eq!(store.list_notifications(2).len(), 0);
}

#[test]
fn notification_delete_is_owner_only() {
    let mut store = Store::new();
    assert!(store.add_profile(profile(1, "alice")));
    assert!(store.add_profile(profile(2, "bob")));
    let n = store
        .create_notification(1, 2, String::from("like"), None, String::from("x"), 10)
        .unwrap();
    store.delete_notification(n, 2).unwrap();
    assert_eq!(store.notifications.len(), 1);
    store.delete_notification(n, 1).unwrap();
    assert_eq!(store.notifications.len(), 0);
}

#[test]
fn presence_expires_after_ttl() {
    let mut tracker = PresenceTracker::new();
    assert!(!tracker.is_online(7, 1_000));
    tracker.touch(7, 1_000);
    assert!(tracker.is_online(7, 1_000));
    assert!(tracker.is_online(7, 1_000 + PRESENCE_TTL_MILLIS - 1));
    assert!(!tracker.is_online(7, 1_000 + PRESENCE_TTL_MILLIS));
    assert!(!tracker.is_online(8, 1_000));
    // a later touch refreshes the window
    tracker.touch(7, 400_000);
    assert!(tracker.is_online(7, 500_000));
}

#[test]
fn last_seen_writes_are_throttled() {
    let mut tracker = PresenceTracker::new();
    assert!(tracker.should_write_last_seen(7, 1_000));
    assert!(!tracker.should_write_last_seen(7, 1_000 + LAST_SEEN_THROTTLE_MILLIS - 1));
    assert!(tracker.should_write_last_seen(7, 1_000 + LAST_SEEN_THROTTLE_MILLIS));
    // throttling is per user
    assert!(tracker.should_write_last_seen(8, 1_000));
}

#[test]
fn registry_tracks_handles_per_user() {
    let mut reg = ConnectionRegistry::new();
    assert_eq!(reg.handles_of(1), Vec::<u64>::new());
    reg.register(1, 100);
    reg.register(1, 101);
    reg.register(2, 200);
    assert_eq!(reg.handles_of(1), vec![100, 101]);
    assert_eq!(reg.handles_of(2), vec![200]);
    reg.unregister(1, 100);
    assert_eq!(reg.handles_of(1), vec![101]);
    reg.unregister(1, 101);
    assert_eq!(reg.handles_of(1), Vec::<u64>::new());
    assert_eq!(reg.handles_of(2), vec![200]);
    // unregistering an unknown user changes nothing
    reg.unregister(9, 1);
    assert_eq!(reg.handles_of(2), vec![200]);
}

#[test]
fn session_requires_auth_before_forwarding() {
    let s0 = SessionState::new();
    // a signaling frame before auth is dropped silently
    let (s1, acts) = s0.on_frame(ClientFrame::Signal { kind: SignalKind::Typing, to: 2 });
    assert!(acts.is_empty());
    // a failed auth leaves the connection inert
    let (s2, acts) = s1.on_frame(ClientFrame::Auth { resolved: None });
    assert!(acts.is_empty());
    assert_eq!(s2.must_unregister(), None);
    // a successful auth registers and confirms
    let (s3, acts) = s2.on_frame(ClientFrame::Auth { resolved: Some(42) });
    assert_eq!(acts.len(), 2);
    assert!(matches!(acts[0], SessionAction::Register { user_id: 42 }));
    assert!(matches!(acts[1], SessionAction::ReplyAuthSuccess { user_id: 42 }));
    // afterwards a call offer is forwarded, stamped, with the caller's name
    let (s4, acts) = s3.on_frame(ClientFrame::Signal { kind: SignalKind::CallOffer, to: 7 });
    assert_eq!(acts.len(), 1);
    match &acts[0] {
        SessionAction::Forward { to, kind, from, include_caller_name } => {
            assert_eq!(*to, 7);
            assert_eq!(*kind, SignalKind::CallOffer);
            assert_eq!(*from, 42);
            assert!(*include_caller_name);
        },
        _ => panic!("expected a forward"),
    }
    // other signal kinds carry no caller name
    let (s5, acts) = s4.on_frame(ClientFrame::Signal { kind: SignalKind::IceCandidate, to: 7 });
    match &acts[0] {
        SessionAction::Forward { include_caller_name, .. } => assert!(!include_caller_name),
        _ => panic!("expected a forward"),
    }
    // cleanup must unregister the authenticated user
    assert_eq!(s5.must_unregister(), Some(42));
    // noise is ignored
    let (_s6, acts) = s5.on_frame(ClientFrame::Other);
    assert!(acts.is_empty());
}

#[test]
fn notification_listing_caps_at_fifty() {
    let mut store = Store::new();
    assert!(store.add_profile(profile(1, "alice")));
    assert!(store.add_profile(profile(2, "bob")));
    for i in 0..60 {
        store
            .create_notification(1, 2, String::from("like"), None, String::from("x"), i)
            .unwrap();
    }
    let listed = store.list_notifications(1);
    assert_eq!(listed.len(), 50);
    assert_eq!(listed[0].created_at, 59);
    assert_eq!(listed[49].created_at, 10);
}
