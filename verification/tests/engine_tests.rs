use signal_tty::engine::{App, Focus};
use signal_tty::keys::{handle_key_event, Key, KeyPress};
use signal_tty::model::{Message, MessageContent};
use signal_tty::protocol::{
    DataMessage, EditMessage, Envelope, IncomingMessage, SentMessage, SyncMessage,
};
use signal_tty::store::{MemoryStorage, StorageRepository};

fn text_message(conversation_id: &str, sender: &str, ts: i64, body: &str) -> Message {
    Message {
        id: format!("id-{}-{}", sender, ts),
        conversation_id: conversation_id.to_string(),
        sender_uuid: sender.to_string(),
        sender_name: None,
        timestamp: ts,
        server_timestamp: None,
        received_at: ts,
        content: MessageContent::Text { body: body.to_string() },
        quote: None,
        is_outgoing: false,
        is_read: false,
        is_deleted: false,
        is_edited: false,
    }
}

fn empty_envelope(sender: &str, ts: i64) -> Envelope {
    Envelope {
        source: None,
        source_uuid: Some(sender.to_string()),
        source_name: Some(sender.to_string()),
        source_device: None,
        timestamp: Some(ts),
        data_message: None,
        sync_message: None,
        receipt_message: None,
        typing_message: None,
        edit_message: None,
    }
}

fn data_envelope(sender: &str, ts: i64, body: &str) -> IncomingMessage {
    let mut env = empty_envelope(sender, ts);
    env.data_message = Some(DataMessage {
        timestamp: Some(ts),
        message: Some(body.to_string()),
        expires_in_seconds: None,
        group_info: None,
        attachments: Vec::new(),
        quote: None,
        reaction: None,
    });
    IncomingMessage { envelope: env, account: None }
}

fn echo_envelope(sender: &str, destination: &str, ts: i64, body: &str) -> IncomingMessage {
    let mut env = empty_envelope(sender, ts);
    env.sync_message = Some(SyncMessage {
        sent_message: Some(SentMessage {
            destination: Some(destination.to_string()),
            destination_uuid: Some(destination.to_string()),
            timestamp: Some(ts),
            message: Some(body.to_string()),
            group_info: None,
            attachments: Vec::new(),
            edit_message: None,
        }),
        read_messages: Vec::new(),
    });
    IncomingMessage { envelope: env, account: None }
}

fn edit_envelope(sender: &str, target_ts: i64, new_body: &str) -> IncomingMessage {
    let mut env = empty_envelope(sender, target_ts + 5);
    env.edit_message = Some(EditMessage {
        target_sent_timestamp: target_ts,
        data_message: Some(DataMessage {
            timestamp: None,
            message: Some(new_body.to_string()),
            expires_in_seconds: None,
            group_info: None,
            attachments: Vec::new(),
            quote: None,
            reaction: None,
        }),
    });
    IncomingMessage { envelope: env, account: None }
}

fn rows_with_key(store: &MemoryStorage, sender: &str, ts: i64) -> usize {
    store
        .msgs
        .iter()
        .filter(|m| m.sender_uuid == sender && m.timestamp == ts)
        .count()
}

#[test]
fn direct_message_then_echo_stores_one_row() {
    // A direct data message from alice at 1000 with body "hi", then the
    // own-device echo for the same signal id: exactly one stored row.
    let mut store = MemoryStorage::new();
    let mut app = App::new(Some("+111".to_string()));
    app.handle_incoming_message(&mut store, data_envelope("alice", 1000, "hi"));
    assert_eq!(rows_with_key(&store, "alice", 1000), 1);
    app.handle_incoming_message(&mut store, echo_envelope("alice", "alice", 1000, "hi"));
    assert_eq!(rows_with_key(&store, "alice", 1000), 1);
}

#[test]
fn echo_reconciled_twice_stores_one_row() {
    let mut store = MemoryStorage::new();
    let mut app = App::new(None);
    app.handle_incoming_message(&mut store, echo_envelope("me", "bob", 42, "hello bob"));
    assert_eq!(rows_with_key(&store, "me", 42), 1);
    app.handle_incoming_message(&mut store, echo_envelope("me", "bob", 42, "hello bob"));
    assert_eq!(rows_with_key(&store, "me", 42), 1);
    let stored = store.get_message_by_signal_id("me", 42).unwrap();
    assert!(stored.is_outgoing);
    assert!(stored.is_read);
}

#[test]
fn events_without_sender_are_dropped() {
    let mut store = MemoryStorage::new();
    let mut app = App::new(None);
    let mut msg = data_envelope("alice", 7, "hi");
    msg.envelope.source_uuid = None;
    app.handle_incoming_message(&mut store, msg);
    assert_eq!(store.msgs.len(), 0);
    assert_eq!(app.conversations.len(), 0);
}

#[test]
fn empty_payload_is_dropped() {
    let mut store = MemoryStorage::new();
    let mut app = App::new(None);
    app.handle_incoming_message(&mut store, data_envelope("alice", 7, ""));
    assert_eq!(store.msgs.len(), 0);
}

#[test]
fn edit_updates_loaded_message_in_place() {
    // An edit targeting (alice, 1000) rewrites the content and sets the
    // edited mark; the local id and the timestamp stay.
    let mut store = MemoryStorage::new();
    let mut app = App::new(None);
    app.handle_incoming_message(&mut store, data_envelope("alice", 1000, "hi"));
    let original_id = store.msgs[0].id.clone();

    app.handle_incoming_message(&mut store, edit_envelope("alice", 1000, "hi there"));

    // The stored row changed content, kept identity.
    assert_eq!(store.msgs.len(), 1);
    assert_eq!(store.msgs[0].id, original_id);
    assert_eq!(store.msgs[0].timestamp, 1000);
    assert!(store.msgs[0].is_edited);
    match &store.msgs[0].content {
        MessageContent::Text { body } => assert_eq!(body, "hi there"),
        _ => panic!("expected text content"),
    }

    // The loaded view changed the same way.
    let view = &app.conversations[app.selected];
    let msgs = view.messages.as_ref().expect("view loaded");
    assert_eq!(msgs.len(), 1);
    assert_eq!(msgs[0].id, original_id);
    assert_eq!(msgs[0].timestamp, 1000);
    assert!(msgs[0].is_edited);
    match &msgs[0].content {
        MessageContent::Text { body } => assert_eq!(body, "hi there"),
        _ => panic!("expected text content"),
    }
}

#[test]
fn incoming_message_appends_to_loaded_view() {
    let mut store = MemoryStorage::new();
    let mut app = App::new(None);
    app.handle_incoming_message(&mut store, data_envelope("alice", 10, "one"));
    app.handle_incoming_message(&mut store, data_envelope("alice", 20, "two"));
    let view = &app.conversations[app.selected];
    let msgs = view.messages.as_ref().expect("loaded");
    assert_eq!(msgs.len(), 2);
    assert_eq!(msgs[0].timestamp, 10);
    assert_eq!(msgs[1].timestamp, 20);
    assert_eq!(view.conversation.last_message_timestamp, Some(20));
    assert_eq!(view.scroll_offset, 0);
}

#[test]
fn conversations_sort_by_watermark() {
    let mut store = MemoryStorage::new();
    let mut app = App::new(None);
    app.handle_incoming_message(&mut store, data_envelope("alice", 10, "a"));
    app.handle_incoming_message(&mut store, data_envelope("bob", 20, "b"));
    // bob's thread is newer, so it sorts first.
    assert_eq!(
        app.conversations[0].conversation.last_message_timestamp,
        Some(20)
    );
    assert_eq!(
        app.conversations[1].conversation.last_message_timestamp,
        Some(10)
    );
    // An even newer message from alice moves her thread back to the front.
    app.handle_incoming_message(&mut store, data_envelope("alice", 30, "c"));
    assert_eq!(
        app.conversations[0].conversation.last_message_timestamp,
        Some(30)
    );
}

#[test]
fn watermark_never_moves_backwards() {
    // A late-arriving older message appends, but the conversation keeps the
    // newer watermark (monotonic max).
    let mut store = MemoryStorage::new();
    let mut app = App::new(None);
    app.handle_incoming_message(&mut store, data_envelope("alice", 30, "new"));
    app.handle_incoming_message(&mut store, data_envelope("alice", 10, "late"));
    let view = &app.conversations[app.selected];
    assert_eq!(view.conversation.last_message_timestamp, Some(30));
    let msgs = view.messages.as_ref().unwrap();
    assert_eq!(msgs.len(), 2);
    assert_eq!(msgs[1].timestamp, 10);
}

#[test]
fn blank_sender_edit_matches_own_rows() {
    // An edit whose loaded target carries a blank sender still lands: the
    // blank sender is a wildcard for the account's own rows.
    let mut store = MemoryStorage::new();
    let mut app = App::new(None);
    app.handle_incoming_message(&mut store, data_envelope("alice", 100, "hello"));
    {
        let view = &mut app.conversations[0];
        let msgs = view.messages.as_mut().unwrap();
        msgs[0].sender_uuid = String::new();
    }
    app.handle_incoming_message(&mut store, edit_envelope("someone", 100, "fixed"));
    let view = &app.conversations[0];
    let msgs = view.messages.as_ref().unwrap();
    assert!(msgs[0].is_edited);
    match &msgs[0].content {
        MessageContent::Text { body } => assert_eq!(body, "fixed"),
        _ => panic!("expected text content"),
    }
}

#[test]
fn scrolling_up_prefetches_older_history() {
    let mut store = MemoryStorage::new();
    let conv = store
        .get_or_create_direct_conversation("alice", None, None)
        .unwrap();
    for ts in 1..=150i64 {
        store
            .save_message(&text_message(&conv.id, "alice", ts, "m"))
            .unwrap();
    }
    let mut app = App::new(None);
    app.load_conversations(&store);
    let view = &app.conversations[app.selected];
    assert_eq!(view.messages.as_ref().unwrap().len(), 100);
    assert!(view.has_more_messages);

    app.scroll_messages_up(&store);
    let view = &app.conversations[app.selected];
    assert_eq!(view.scroll_offset, 3);
    // The older page was fetched at once.
    assert_eq!(view.messages.as_ref().unwrap().len(), 150);
    assert!(!view.has_more_messages);

    app.scroll_messages_down();
    let view = &app.conversations[app.selected];
    assert_eq!(view.scroll_offset, 0);
}

#[test]
fn mark_read_returns_unread_timestamps() {
    let mut store = MemoryStorage::new();
    let mut app = App::new(None);
    app.handle_incoming_message(&mut store, data_envelope("alice", 10, "one"));
    app.handle_incoming_message(&mut store, data_envelope("alice", 20, "two"));
    let (recipient, timestamps) = app.mark_current_conversation_read(&mut store).expect("some");
    assert_eq!(recipient, "alice");
    assert_eq!(timestamps, vec![10, 20]);
    // Everything is read now, so a second call does nothing.
    assert!(app.mark_current_conversation_read(&mut store).is_none());
    let view = &app.conversations[app.selected];
    for m in view.messages.as_ref().unwrap() {
        assert!(m.is_read);
    }
}

#[test]
fn filter_matches_name_case_insensitively() {
    let mut store = MemoryStorage::new();
    let mut app = App::new(None);
    let _ = store
        .get_or_create_direct_conversation("uuid-1", None, Some(&"Alice Smith".to_string()))
        .unwrap();
    let _ = store
        .get_or_create_direct_conversation("uuid-2", None, Some(&"Bob Jones".to_string()))
        .unwrap();
    app.show_empty_conversations = true;
    app.load_conversations(&store);
    assert_eq!(app.conversations.len(), 2);
    for c in "smith".chars() {
        app.filter_input.insert(c);
    }
    let indices = app.filtered_conversation_indices();
    assert_eq!(indices.len(), 1);
    assert_eq!(
        app.conversations[indices[0]].conversation.recipient_name,
        Some("Alice Smith".to_string())
    );
}

#[test]
fn quit_keys_set_the_flag() {
    let mut store = MemoryStorage::new();
    let mut app = App::new(None);
    handle_key_event(
        &mut app,
        &mut store,
        KeyPress { code: Key::Char('q'), ctrl: false, shift: false },
    );
    assert!(app.should_quit);
}

#[test]
fn typing_goes_to_the_composer() {
    let mut store = MemoryStorage::new();
    let mut app = App::new(None);
    app.focus = Focus::Input;
    for c in "hey".chars() {
        handle_key_event(
            &mut app,
            &mut store,
            KeyPress { code: Key::Char(c), ctrl: false, shift: false },
        );
    }
    assert_eq!(app.input.text, "hey");
    assert_eq!(app.input.cursor, 3);
}

#[test]
fn selection_copy_fills_clipboard_request() {
    let mut store = MemoryStorage::new();
    let mut app = App::new(None);
    app.handle_incoming_message(&mut store, data_envelope("alice", 10, "first"));
    app.handle_incoming_message(&mut store, data_envelope("alice", 20, "second"));
    app.focus = Focus::Messages;
    handle_key_event(
        &mut app,
        &mut store,
        KeyPress { code: Key::Char('v'), ctrl: false, shift: false },
    );
    handle_key_event(
        &mut app,
        &mut store,
        KeyPress { code: Key::Char('y'), ctrl: false, shift: false },
    );
    assert!(app.pending_clipboard.is_some());
    assert!(app.conversations[app.selected].selection.is_none());
}

#[test]
fn deleting_selection_removes_rows() {
    let mut store = MemoryStorage::new();
    let mut app = App::new(None);
    app.handle_incoming_message(&mut store, data_envelope("alice", 10, "first"));
    app.handle_incoming_message(&mut store, data_envelope("alice", 20, "second"));
    app.focus = Focus::Messages;
    handle_key_event(
        &mut app,
        &mut store,
        KeyPress { code: Key::Char('v'), ctrl: false, shift: false },
    );
    handle_key_event(
        &mut app,
        &mut store,
        KeyPress { code: Key::Char('d'), ctrl: false, shift: false },
    );
    let view = &app.conversations[app.selected];
    assert_eq!(view.messages.as_ref().unwrap().len(), 1);
    assert_eq!(store.msgs.len(), 1);
}

#[test]
fn store_save_is_keyed_by_local_id() {
    let mut store = MemoryStorage::new();
    let mut msg = text_message("c1", "alice", 5, "one");
    store.save_message(&msg).unwrap();
    msg.content = MessageContent::Text { body: "two".to_string() };
    store.save_message(&msg).unwrap();
    assert_eq!(store.msgs.len(), 1);
    match &store.msgs[0].content {
        MessageContent::Text { body } => assert_eq!(body, "two"),
        _ => panic!("expected text"),
    }
}

#[test]
fn store_pages_newest_first_ascending() {
    let mut store = MemoryStorage::new();
    for ts in 1..=7i64 {
        let m = text_message("c1", "alice", ts, "m");
        store.save_message(&m).unwrap();
    }
    let page = store.list_messages("c1", 3, None).unwrap();
    let got: Vec<i64> = page.iter().map(|m| m.timestamp).collect();
    assert_eq!(got, vec![5, 6, 7]);
    let older = store.list_messages("c1", 3, Some(5)).unwrap();
    let got: Vec<i64> = older.iter().map(|m| m.timestamp).collect();
    assert_eq!(got, vec![2, 3, 4]);
}

#[test]
fn get_or_create_direct_updates_contact_details() {
    let mut store = MemoryStorage::new();
    let c1 = store
        .get_or_create_direct_conversation("uuid-1", None, None)
        .unwrap();
    let c2 = store
        .get_or_create_direct_conversation("uuid-1", Some(&"+123".to_string()), None)
        .unwrap();
    assert_eq!(c1.id, c2.id);
    assert_eq!(c2.recipient_number, Some("+123".to_string()));
    assert_eq!(store.convs.len(), 1);
}
