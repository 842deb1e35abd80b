use karu_core::model::Profile;
use karu_core::presence::PresenceTracker;
use karu_core::send::{DraftPayload, SendMessageRequest};
use karu_core::store::{EngineError, Store};

fn profile(user_id: u64, username: &str) -> Profile {
    Profile {
        user_id,
        username: String::from(username),
        full_name: None,
        avatar_url: None,
        public_key: None,
        is_verified: true,
        blocked_users: Vec::new(),
        muted_chats: Vec::new(),
        last_seen_at: None,
        last_location: None,
    }
}

fn text_draft(content: &str) -> SendMessageRequest {
    SendMessageRequest {
        content: String::from(content),
        attachment_url: None,
        attachment_type: None,
        reply_to_id: None,
        encrypted_content: None,
        encryption_iv: None,
        payload: DraftPayload::Text,
        is_view_once: None,
    }
}

#[test]
fn create_chat_finds_recipient_case_insensitively() {
    let mut store = Store::new();
    assert!(store.add_profile(profile(1, "Alice")));
    assert!(store.add_profile(profile(2, "bob")));
    let (id, created) = store.create_chat(2, &String::from("ALICE"), 10).unwrap();
    assert!(created);
    // asking again returns the same chat instead of a second one
    let (again, created_again) = store.create_chat(2, &String::from("alice"), 20).unwrap();
    assert!(!created_again);
    assert_eq!(id, again);
    assert_eq!(store.chats.len(), 1);
}

#[test]
fn create_chat_rejections() {
    let mut store = Store::new();
    assert!(store.add_profile(profile(1, "alice")));
    assert_eq!(
        store.create_chat(1, &String::from("nobody"), 10),
        Err(EngineError::NotFound)
    );
    assert_eq!(
        store.create_chat(1, &String::from("alice"), 10),
        Err(EngineError::BadRequest)
    );
}

fn group_store() -> (Store, u64) {
    let mut store = Store::new();
    assert!(store.add_profile(profile(1, "alice")));
    assert!(store.add_profile(profile(2, "bob")));
    assert!(store.add_profile(profile(3, "carol")));
    assert!(store.add_profile(profile(4, "dave")));
    let gid = store
        .create_group(
            1,
            String::from("study"),
            vec![String::from("bob"), String::from("carol")],
            10,
        )
        .unwrap();
    (store, gid)
}

#[test]
fn create_group_resolves_and_dedups() {
    let mut store = Store::new();
    assert!(store.add_profile(profile(1, "alice")));
    assert!(store.add_profile(profile(2, "bob")));
    let gid = store
        .create_group(
            1,
            String::from("g"),
            vec![String::from("bob"), String::from("bob"), String::from("ghost")],
            10,
        )
        .unwrap();
    let ci = store.find_chat(gid).unwrap();
    assert_eq!(store.chats[ci].participants, vec![1, 2]);
    assert_eq!(store.chats[ci].admins, vec![1]);
    assert!(store.chats[ci].is_group);
}

#[test]
fn create_group_needs_two_members() {
    let mut store = Store::new();
    assert!(store.add_profile(profile(1, "alice")));
    assert_eq!(
        store.create_group(1, String::from("solo"), vec![String::from("ghost")], 10),
        Err(EngineError::BadRequest)
    );
}

#[test]
fn add_participants_is_admin_only_and_skips_present() {
    let (mut store, gid) = group_store();
    assert_eq!(
        store.add_participants(gid, 2, vec![String::from("dave")]),
        Err(EngineError::Forbidden)
    );
    store
        .add_participants(gid, 1, vec![String::from("dave"), String::from("bob")])
        .unwrap();
    let ci = store.find_chat(gid).unwrap();
    assert_eq!(store.chats[ci].participants, vec![1, 2, 3, 4]);
}

#[test]
fn remove_participant_rules() {
    let (mut store, gid) = group_store();
    assert_eq!(
        store.remove_participant(gid, 2, &String::from("carol")),
        Err(EngineError::Forbidden)
    );
    assert_eq!(
        store.remove_participant(gid, 1, &String::from("ghost")),
        Err(EngineError::NotFound)
    );
    assert_eq!(
        store.remove_participant(gid, 1, &String::from("alice")),
        Err(EngineError::BadRequest)
    );
    store.remove_participant(gid, 1, &String::from("bob")).unwrap();
    let ci = store.find_chat(gid).unwrap();
    assert_eq!(store.chats[ci].participants, vec![1, 3]);
}

#[test]
fn toggle_admin_promotes_then_demotes() {
    let (mut store, gid) = group_store();
    store.toggle_admin(gid, 1, &String::from("bob")).unwrap();
    let ci = store.find_chat(gid).unwrap();
    assert_eq!(store.chats[ci].admins, vec![1, 2]);
    store.toggle_admin(gid, 1, &String::from("bob")).unwrap();
    let ci = store.find_chat(gid).unwrap();
    assert_eq!(store.chats[ci].admins, vec![1]);
    assert_eq!(
        store.toggle_admin(gid, 1, &String::from("alice")),
        Err(EngineError::BadRequest)
    );
}

#[test]
fn leave_group_clears_both_lists() {
    let (mut store, gid) = group_store();
    store.leave_group(gid, 1).unwrap();
    let ci = store.find_chat(gid).unwrap();
    assert_eq!(store.chats[ci].participants, vec![2, 3]);
    assert_eq!(store.chats[ci].admins, Vec::<u64>::new());
    // leaving a missing chat is a silent success
    store.leave_group(999, 1).unwrap();
}

#[test]
fn update_group_sets_given_fields() {
    let (mut store, gid) = group_store();
    store
        .update_group(gid, 1, Some(String::from("renamed")), None)
        .unwrap();
    let ci = store.find_chat(gid).unwrap();
    assert_eq!(store.chats[ci].name.as_deref(), Some("renamed"));
    assert_eq!(store.chats[ci].avatar_url, None);
    assert_eq!(
        store.update_group(gid, 3, Some(String::from("x")), None),
        Err(EngineError::Forbidden)
    );
}

#[test]
fn set_disappearing_requires_group_admin() {
    let (mut store, gid) = group_store();
    assert_eq!(store.set_disappearing(gid, 2, Some(60)), Err(EngineError::Forbidden));
    store.set_disappearing(gid, 1, Some(60)).unwrap();
    let ci = store.find_chat(gid).unwrap();
    assert_eq!(store.chats[ci].disappearing_duration, Some(60));
}

#[test]
fn disappearing_policy_only_affects_later_messages() {
    let (mut store, gid) = group_store();
    let before = store.send_message(gid, 1, text_draft("old"), 1_000).unwrap().message_id;
    store.set_disappearing(gid, 1, Some(5_000)).unwrap();
    let after = store.send_message(gid, 1, text_draft("new"), 2_000).unwrap().message_id;
    let bi = store.find_message(before).unwrap();
    assert_eq!(store.messages[bi].expires_at, None);
    let ai = store.find_message(after).unwrap();
    assert_eq!(store.messages[ai].expires_at, Some(7_000));
}

#[test]
fn list_chats_renders_direct_and_group_entries() {
    let mut store = Store::new();
    assert!(store.add_profile(profile(1, "alice")));
    assert!(store.add_profile(profile(2, "bob")));
    let (direct, _) = store.create_chat(1, &String::from("bob"), 10).unwrap();
    let gid = store
        .create_group(1, String::from("team"), vec![String::from("bob")], 20)
        .unwrap();
    store.send_message(direct, 2, text_draft("ping"), 30).unwrap();
    let mut presence = PresenceTracker::new();
    presence.touch(2, 40);
    let out = store.list_chats(1, &presence, 50);
    assert_eq!(out.len(), 2);
    let d = &out[0];
    assert!(!d.is_group);
    assert_eq!(d.name, "bob");
    assert_eq!(d.unread_count, 1);
    let summary = d.participant.as_ref().unwrap();
    assert!(summary.is_online);
    assert_eq!(summary.username, "bob");
    let g = &out[1];
    assert!(g.is_group);
    assert_eq!(g.name, "team");
    assert_eq!(g.unread_count, 0);
    let gps = g.group_participants.as_ref().unwrap();
    assert_eq!(gps.len(), 2);
    assert_eq!(g.admins.as_ref().unwrap().len(), 1);
}

#[test]
fn list_chats_honours_mutes_and_read_receipts() {
    let mut store = Store::new();
    let mut alice = profile(1, "alice");
    assert!(store.add_profile(profile(2, "bob")));
    // chat ids start after the profile bookkeeping; create the chat first
    assert!(store.add_profile(alice));
    let (direct, _) = store.create_chat(1, &String::from("bob"), 10).unwrap();
    // mark the chat muted on alice's profile
    let pi = store.find_profile(1).unwrap();
    alice = store.profiles.remove(pi);
    alice.muted_chats.push(direct);
    store.profiles.insert(pi, alice);
    let m = store.send_message(direct, 2, text_draft("one"), 20).unwrap().message_id;
    store.mark_read(m, 1, 30).unwrap();
    let presence = PresenceTracker::new();
    let out = store.list_chats(1, &presence, 40);
    assert!(out[0].is_muted);
    assert_eq!(out[0].unread_count, 0);
}

#[test]
fn update_live_location_sets_profile_location() {
    let mut store = Store::new();
    assert!(store.add_profile(profile(1, "alice")));
    store
        .update_live_location(1, 1_250_000, 36_820_000, Some(String::from("campus")))
        .unwrap();
    let pi = store.find_profile(1).unwrap();
    let loc = store.profiles[pi].last_location.as_ref().unwrap();
    assert_eq!(loc.latitude_microdeg, 1_250_000);
    assert_eq!(loc.is_live, Some(true));
    // no profile: a silent success
    store.update_live_location(9, 0, 0, None).unwrap();
}

#[test]
fn chat_overview_runs_most_recent_first() {
    let mut store = Store::new();
    assert!(store.add_profile(profile(1, "alice")));
    assert!(store.add_profile(profile(2, "bob")));
    assert!(store.add_profile(profile(3, "carol")));
    let (with_bob, _) = store.create_chat(1, &String::from("bob"), 10).unwrap();
    let (with_carol, _) = store.create_chat(1, &String::from("carol"), 20).unwrap();
    // a new message in the older chat moves it to the top
    store.send_message(with_bob, 2, text_draft("newest"), 30).unwrap();
    let presence = PresenceTracker::new();
    let out = store.list_chats(1, &presence, 40);
    assert_eq!(out.len(), 2);
    assert_eq!(out[0].name, "bob");
    assert_eq!(out[0].last_message_time, 30);
    assert_eq!(out[1].name, "carol");
    assert_eq!(out[1].last_message_time, 20);
    let _ = with_carol;
}
