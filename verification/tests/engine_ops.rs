use karu_core::engine::DeleteMode;
use karu_core::model::{MessageState, Profile};
use karu_core::send::{ContactRequest, CreatePollRequest, DraftPayload, LocationRequest, SendMessageRequest};
use karu_core::store::{EngineError, Store};

fn profile(user_id: u64, username: &str, verified: bool) -> Profile {
    Profile {
        user_id,
        username: String::from(username),
        full_name: None,
        avatar_url: None,
        public_key: None,
        is_verified: verified,
        blocked_users: Vec::new(),
        muted_chats: Vec::new(),
        last_seen_at: None,
        last_location: None,
    }
}

fn text_draft(content: &str) -> SendMessageRequest {
    SendMessageRequest {
        content: String::from(content),
        attachment_url: None,
        attachment_type: None,
        reply_to_id: None,
        encrypted_content: None,
        encryption_iv: None,
        payload: DraftPayload::Text,
        is_view_once: None,
    }
}

fn two_person_chat() -> (Store, u64, u64, u64) {
    let mut store = Store::new();
    assert!(store.add_profile(profile(1, "alice", true)));
    assert!(store.add_profile(profile(2, "bob", true)));
    let (chat_id, created) = store.create_chat(1, &String::from("bob"), 10).unwrap();
    assert!(created);
    (store, chat_id, 1, 2)
}

#[test]
fn send_persists_exactly_one_message_and_updates_summary() {
    let (mut store, chat, a, _b) = two_person_chat();
    let before = store.messages.len();
    let receipt = store.send_message(chat, a, text_draft("hi"), 100).unwrap();
    assert_eq!(store.messages.len(), before + 1);
    let m = store.messages.last().unwrap();
    assert_eq!(m.id, receipt.message_id);
    assert_eq!(m.sender_id, a);
    assert_eq!(m.chat_id, chat);
    assert_eq!(m.content, "hi");
    let ci = store.find_chat(chat).unwrap();
    assert_eq!(store.chats[ci].last_message.as_deref(), Some("hi"));
    assert_eq!(store.chats[ci].last_message_time, 100);
}

#[test]
fn send_requires_verification() {
    let mut store = Store::new();
    assert!(store.add_profile(profile(1, "alice", false)));
    assert!(store.add_profile(profile(2, "bob", true)));
    let (chat, _) = store.create_chat(2, &String::from("alice"), 10).unwrap();
    assert_eq!(store.send_message(chat, 1, text_draft("hi"), 100), Err(EngineError::Forbidden));
}

#[test]
fn send_rejects_non_participant() {
    let (mut store, chat, _a, _b) = two_person_chat();
    assert!(store.add_profile(profile(3, "carol", true)));
    // an existing chat the sender does not belong to is forbidden; an absent
    // chat is not found
    assert_eq!(store.send_message(chat, 3, text_draft("hi"), 100), Err(EngineError::Forbidden));
    assert_eq!(store.send_message(999, 1, text_draft("hi"), 100), Err(EngineError::NotFound));
}

#[test]
fn listing_rejects_non_participant() {
    let (mut store, chat, a, _b) = two_person_chat();
    assert!(store.add_profile(profile(3, "carol", true)));
    store.send_message(chat, a, text_draft("hi"), 100).unwrap();
    assert!(matches!(store.list_messages(chat, 3, 110), Err(EngineError::Forbidden)));
    assert!(matches!(store.list_messages(999, 3, 110), Err(EngineError::NotFound)));
}

#[test]
fn send_respects_block() {
    let mut store = Store::new();
    assert!(store.add_profile(profile(1, "alice", true)));
    let mut bob = profile(2, "bob", true);
    bob.blocked_users.push(1);
    assert!(store.add_profile(bob));
    let (chat, _) = store.create_chat(1, &String::from("bob"), 10).unwrap();
    assert_eq!(store.send_message(chat, 1, text_draft("hi"), 100), Err(EngineError::Forbidden));
}

#[test]
fn react_toggle_adds_then_removes() {
    let (mut store, chat, a, b) = two_person_chat();
    let receipt = store.send_message(chat, a, text_draft("hi"), 100).unwrap();
    let m = receipt.message_id;
    store.react_message(m, b, String::from("\u{1F44D}"), 101).unwrap();
    let i = store.find_message(m).unwrap();
    assert_eq!(store.messages[i].reactions.len(), 1);
    store.react_message(m, b, String::from("\u{1F44D}"), 102).unwrap();
    let i = store.find_message(m).unwrap();
    assert_eq!(store.messages[i].reactions.len(), 0);
}

#[test]
fn react_missing_message_is_not_found() {
    let (mut store, _chat, _a, b) = two_person_chat();
    assert_eq!(
        store.react_message(424242, b, String::from("x"), 1),
        Err(EngineError::NotFound)
    );
}

fn poll_draft(options: &[&str], multiple: bool) -> SendMessageRequest {
    SendMessageRequest {
        content: String::new(),
        attachment_url: None,
        attachment_type: None,
        reply_to_id: None,
        encrypted_content: None,
        encryption_iv: None,
        payload: DraftPayload::Poll(CreatePollRequest {
            question: String::from("which?"),
            options: options.iter().map(|s| String::from(*s)).collect(),
            is_multiple: multiple,
        }),
        is_view_once: None,
    }
}

#[test]
fn vote_exclusive_on_single_choice_poll() {
    let (mut store, chat, a, b) = two_person_chat();
    let receipt = store.send_message(chat, a, poll_draft(&["tea", "coffee"], false), 100).unwrap();
    let m = receipt.message_id;
    store.vote_poll(m, b, 0).unwrap();
    store.vote_poll(m, b, 1).unwrap();
    let msgs = store.list_messages(chat, b, 150).unwrap();
    let poll = msgs[0].poll.as_ref().unwrap();
    assert_eq!(poll.options[0].count, 0);
    assert!(!poll.options[0].me_voted);
    assert_eq!(poll.options[1].count, 1);
    assert!(poll.options[1].me_voted);
    assert_eq!(poll.total_votes, 1);
}

#[test]
fn vote_toggles_off() {
    let (mut store, chat, a, b) = two_person_chat();
    let receipt = store.send_message(chat, a, poll_draft(&["x", "y"], true), 100).unwrap();
    let m = receipt.message_id;
    store.vote_poll(m, b, 0).unwrap();
    store.vote_poll(m, b, 0).unwrap();
    let msgs = store.list_messages(chat, b, 150).unwrap();
    let poll = msgs[0].poll.as_ref().unwrap();
    assert_eq!(poll.options[0].count, 0);
}

#[test]
fn vote_rejects_bad_requests() {
    let (mut store, chat, a, b) = two_person_chat();
    let text = store.send_message(chat, a, text_draft("hi"), 100).unwrap();
    assert_eq!(store.vote_poll(text.message_id, b, 0), Err(EngineError::BadRequest));
    let receipt = store.send_message(chat, a, poll_draft(&["x"], false), 101).unwrap();
    assert_eq!(store.vote_poll(receipt.message_id, b, 5), Err(EngineError::BadRequest));
    assert_eq!(store.vote_poll(9999, b, 0), Err(EngineError::NotFound));
}

#[test]
fn mark_read_sets_once_and_only_for_non_sender() {
    let (mut store, chat, a, b) = two_person_chat();
    let m = store.send_message(chat, a, text_draft("hi"), 100).unwrap().message_id;
    store.mark_read(m, a, 110).unwrap();
    let i = store.find_message(m).unwrap();
    assert_eq!(store.messages[i].read_at, None);
    store.mark_read(m, b, 120).unwrap();
    let i = store.find_message(m).unwrap();
    assert_eq!(store.messages[i].read_at, Some(120));
    store.mark_read(m, b, 130).unwrap();
    let i = store.find_message(m).unwrap();
    assert_eq!(store.messages[i].read_at, Some(120));
}

fn view_once_draft() -> SendMessageRequest {
    SendMessageRequest {
        content: String::from("look"),
        attachment_url: Some(String::from("https://cdn.example/img.png")),
        attachment_type: Some(String::from("image")),
        reply_to_id: None,
        encrypted_content: None,
        encryption_iv: None,
        payload: DraftPayload::Text,
        is_view_once: Some(true),
    }
}

#[test]
fn view_once_redacts_after_first_view() {
    let (mut store, chat, a, b) = two_person_chat();
    let m = store.send_message(chat, a, view_once_draft(), 100).unwrap().message_id;
    let before = store.list_messages(chat, b, 105).unwrap();
    assert_eq!(before[0].attachment_url.as_deref(), Some("https://cdn.example/img.png"));
    store.mark_viewed(m, b, 110).unwrap();
    let after = store.list_messages(chat, b, 115).unwrap();
    assert_eq!(after[0].attachment_url, None);
    assert_eq!(after[0].content, "Media viewed");
    // a second call is a no-op: no error, no state change
    store.mark_viewed(m, b, 200).unwrap();
    let i = store.find_message(m).unwrap();
    assert_eq!(store.messages[i].viewed_at, Some(110));
    assert_eq!(store.messages[i].attachment_url.as_deref(), Some("https://cdn.example/img.png"));
}

#[test]
fn expired_messages_never_listed_but_stay_stored() {
    let (mut store, chat, a, b) = two_person_chat();
    store.set_disappearing(chat, a, Some(5_000)).unwrap();
    let m = store.send_message(chat, a, text_draft("soon gone"), 100_000).unwrap().message_id;
    let fresh = store.list_messages(chat, b, 101_000).unwrap();
    assert_eq!(fresh.len(), 1);
    let later = store.list_messages(chat, b, 200_000).unwrap();
    assert_eq!(later.len(), 0);
    assert!(store.find_message(m).is_some());
}

#[test]
fn delete_everyone_is_sender_only() {
    let (mut store, chat, a, b) = two_person_chat();
    let m = store.send_message(chat, a, text_draft("hi"), 100).unwrap().message_id;
    assert_eq!(
        store.delete_message(m, b, DeleteMode::Everyone, 110),
        Err(EngineError::Forbidden)
    );
    let i = store.find_message(m).unwrap();
    assert_eq!(store.messages[i].content, "hi");
    store.delete_message(m, a, DeleteMode::Everyone, 120).unwrap();
    let i = store.find_message(m).unwrap();
    assert!(store.messages[i].is_deleted);
    assert_eq!(store.messages[i].content, "This message was deleted");
    assert_eq!(store.messages[i].attachment_url, None);
}

#[test]
fn delete_me_removes_row_for_sender_only() {
    let (mut store, chat, a, b) = two_person_chat();
    let m = store.send_message(chat, a, text_draft("bye"), 100).unwrap().message_id;
    store.delete_message(m, b, DeleteMode::Me, 110).unwrap();
    assert!(store.find_message(m).is_some());
    store.delete_message(m, a, DeleteMode::Me, 120).unwrap();
    assert!(store.find_message(m).is_none());
    assert_eq!(store.delete_message(m, a, DeleteMode::Me, 130), Err(EngineError::NotFound));
}

#[test]
fn reply_quotes_parent() {
    let (mut store, chat, a, b) = two_person_chat();
    let parent = store.send_message(chat, a, text_draft("first"), 100).unwrap().message_id;
    let mut draft = text_draft("second");
    draft.reply_to_id = Some(parent);
    store.send_message(chat, b, draft, 110).unwrap();
    let msgs = store.list_messages(chat, a, 120).unwrap();
    let summary = msgs[1].reply_to.as_ref().unwrap();
    assert_eq!(summary.content, "first");
    assert_eq!(summary.username, "alice");
}

#[test]
fn full_message_lifecycle_scenario() {
    // chat C = {A, B}, no disappearing policy
    let (mut store, chat, a, b) = two_person_chat();
    // A sends "hi": message m1, chat summary updated
    let m1 = store.send_message(chat, a, text_draft("hi"), 100).unwrap().message_id;
    let ci = store.find_chat(chat).unwrap();
    assert_eq!(store.chats[ci].last_message.as_deref(), Some("hi"));
    // B reacts with a thumbs-up
    store.react_message(m1, b, String::from("\u{1F44D}"), 110).unwrap();
    let as_a = store.list_messages(chat, a, 120).unwrap();
    assert_eq!(as_a[0].reactions.len(), 1);
    assert_eq!(as_a[0].reactions[0].emoji, "\u{1F44D}");
    assert_eq!(as_a[0].reactions[0].count, 1);
    assert!(!as_a[0].reactions[0].me_reacted);
    let as_b = store.list_messages(chat, b, 120).unwrap();
    assert!(as_b[0].reactions[0].me_reacted);
    // B marks it read
    store.mark_read(m1, b, 130).unwrap();
    let i = store.find_message(m1).unwrap();
    assert!(store.messages[i].read_at.is_some());
    // A deletes for everyone
    store.delete_message(m1, a, DeleteMode::Everyone, 140).unwrap();
    let i = store.find_message(m1).unwrap();
    assert_eq!(store.messages[i].content, "This message was deleted");
    assert!(store.messages[i].is_deleted);
    // a second everyone-delete by B is rejected
    assert_eq!(
        store.delete_message(m1, b, DeleteMode::Everyone, 150),
        Err(EngineError::Forbidden)
    );
}

#[test]
fn delete_request_mode_words() {
    let everyone = karu_core::engine::DeleteRequest { mode: String::from("everyone") };
    let me = karu_core::engine::DeleteRequest { mode: String::from("me") };
    assert_eq!(everyone.delete_mode(), DeleteMode::Everyone);
    assert_eq!(me.delete_mode(), DeleteMode::Me);
}

#[test]
fn derived_state_reflects_expiry_and_deletion() {
    let (mut store, chat, a, _b) = two_person_chat();
    store.set_disappearing(chat, a, Some(1_000)).unwrap();
    let m = store.send_message(chat, a, text_draft("x"), 10_000).unwrap().message_id;
    let i = store.find_message(m).unwrap();
    assert_eq!(store.messages[i].state(10_500), MessageState::Active);
    assert_eq!(store.messages[i].state(12_000), MessageState::Expired);
    store.delete_message(m, a, DeleteMode::Everyone, 10_600).unwrap();
    let i = store.find_message(m).unwrap();
    assert_eq!(store.messages[i].state(10_700), MessageState::Deleted);
    // expiry wins over deletion on the read path
    assert_eq!(store.messages[i].state(12_000), MessageState::Expired);
}

#[test]
fn listing_ids_are_fixed_width_hex() {
    let (mut store, chat, a, b) = two_person_chat();
    let m = store.send_message(chat, a, text_draft("hi"), 100).unwrap().message_id;
    let listed = store.list_messages(chat, b, 110).unwrap();
    assert_eq!(listed[0].id, karu_core::strutil::id_hex(m));
    assert_eq!(listed[0].id.len(), 16);
    assert_eq!(listed[0].sender_id, karu_core::strutil::id_hex(a));
    assert!(!listed[0].is_me);
    assert_eq!(listed[0].sender_username, "alice");
}

#[test]
fn direct_chat_notification_text() {
    let (mut store, chat, a, _b) = two_person_chat();
    store.send_message(chat, a, text_draft("hi"), 100).unwrap();
    assert_eq!(store.notifications.len(), 1);
    assert_eq!(store.notifications[0].user_id, 2);
    assert_eq!(store.notifications[0].content, "sent you a message");
}

#[test]
fn contact_and_location_payloads_round_trip() {
    let (mut store, chat, a, b) = two_person_chat();
    let contact = SendMessageRequest {
        content: String::new(),
        attachment_url: None,
        attachment_type: None,
        reply_to_id: None,
        encrypted_content: None,
        encryption_iv: None,
        payload: DraftPayload::Contact(ContactRequest {
            username: String::from("carol"),
            full_name: Some(String::from("Carol C")),
            avatar_url: None,
        }),
        is_view_once: None,
    };
    store.send_message(chat, a, contact, 100).unwrap();
    let location = SendMessageRequest {
        content: String::new(),
        attachment_url: None,
        attachment_type: None,
        reply_to_id: None,
        encrypted_content: None,
        encryption_iv: None,
        payload: DraftPayload::Location(LocationRequest {
            latitude_microdeg: -1_292_000,
            longitude_microdeg: 36_821_000,
            label: Some(String::from("library")),
            is_live: Some(true),
            duration_minutes: Some(15),
        }),
        is_view_once: None,
    };
    store.send_message(chat, a, location, 200).unwrap();
    let listed = store.list_messages(chat, b, 300).unwrap();
    let c = listed[0].contact.as_ref().unwrap();
    assert_eq!(c.username, "carol");
    assert_eq!(c.full_name.as_deref(), Some("Carol C"));
    let l = listed[1].location.as_ref().unwrap();
    assert_eq!(l.latitude_microdeg, -1_292_000);
    assert_eq!(l.label.as_deref(), Some("library"));
    // a live share's own lifetime: fifteen minutes past the send time
    assert_eq!(l.expires_at, Some(200 + 15 * 60_000));
}

#[test]
fn encrypted_content_passes_through_untouched() {
    let (mut store, chat, a, b) = two_person_chat();
    let draft = SendMessageRequest {
        content: String::new(),
        attachment_url: None,
        attachment_type: None,
        reply_to_id: None,
        encrypted_content: Some(String::from("3ncrypt3d")),
        encryption_iv: Some(String::from("iv12")),
        payload: DraftPayload::Text,
        is_view_once: None,
    };
    store.send_message(chat, a, draft, 100).unwrap();
    let listed = store.list_messages(chat, b, 110).unwrap();
    assert_eq!(listed[0].encrypted_content.as_deref(), Some("3ncrypt3d"));
    assert_eq!(listed[0].encryption_iv.as_deref(), Some("iv12"));
}

#[test]
fn message_listing_is_oldest_first_and_capped() {
    let (mut store, chat, a, b) = two_person_chat();
    // send out of creation order: the listing still runs oldest first
    store.send_message(chat, a, text_draft("later"), 300).unwrap();
    store.send_message(chat, a, text_draft("earlier"), 100).unwrap();
    let listed = store.list_messages(chat, b, 400).unwrap();
    assert_eq!(listed[0].content, "earlier");
    assert_eq!(listed[1].content, "later");
    // one page holds at most one hundred entries
    for i in 0..105 {
        store.send_message(chat, a, text_draft("bulk"), 1_000 + i).unwrap();
    }
    let page = store.list_messages(chat, b, 2_000).unwrap();
    assert_eq!(page.len(), 100);
    assert_eq!(page[0].content, "earlier");
}
