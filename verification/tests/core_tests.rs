use signal_tty::browser::{DirEntry, FileBrowserState};
use signal_tty::input::InputState;
use signal_tty::model::{AttachmentInfo, Conversation, Message, MessageContent};
use signal_tty::preview::{format_message_preview, format_size, has_unread, mime_from_extension,
    split_into_lines, u64_to_string};
use signal_tty::store::{MemoryStorage, StorageRepository};
use signal_tty::sys::fresh_uuid;
use signal_tty::text::{lowercase, str_contains, str_eq, str_starts_with};
use signal_tty::view::{ConversationView, MessageSelection, RemoteDeleteTarget};

fn msg(ts: i64, sender: &str, body: &str, outgoing: bool) -> Message {
    Message {
        id: format!("id-{}-{}", sender, ts),
        conversation_id: "c1".to_string(),
        sender_uuid: sender.to_string(),
        sender_name: Some(sender.to_string()),
        timestamp: ts,
        server_timestamp: None,
        received_at: ts,
        content: MessageContent::Text { body: body.to_string() },
        quote: None,
        is_outgoing: outgoing,
        is_read: outgoing,
        is_deleted: false,
        is_edited: false,
    }
}

fn seeded_store(count: i64) -> MemoryStorage {
    let mut store = MemoryStorage::new();
    for ts in 1..=count {
        store.save_message(&msg(ts, "alice", "m", false)).unwrap();
    }
    store
}

fn conv_c1() -> Conversation {
    Conversation {
        id: "c1".to_string(),
        conversation_type: signal_tty::model::ConversationType::Direct,
        recipient_uuid: Some("alice".to_string()),
        recipient_number: None,
        recipient_name: None,
        group_id: None,
        group_name: None,
        last_message_timestamp: None,
        unread_count: 0,
        is_archived: false,
        is_muted: false,
    }
}

fn loaded_view(store: &MemoryStorage) -> ConversationView {
    let conv = conv_c1();
    let mut view = ConversationView {
        conversation: conv,
        messages: None,
        scroll_offset: 0,
        has_more_messages: true,
        selection: None,
        visible_range: None,
        last_message_preview: None,
    };
    assert!(view.load_messages(store));
    view
}

#[test]
fn paging_keeps_strictly_ascending_without_duplicates() {
    // 250 rows; the initial load takes the newest 100, each older page
    // prepends strictly older rows, and the list stays strictly ascending
    // with unique signal ids throughout.
    let store = seeded_store(250);
    let mut view = loaded_view(&store);
    let check = |view: &ConversationView| {
        let msgs = view.messages.as_ref().unwrap();
        for w in msgs.windows(2) {
            assert!(w[0].timestamp < w[1].timestamp);
            assert!(!(w[0].sender_uuid == w[1].sender_uuid && w[0].timestamp == w[1].timestamp));
        }
    };
    assert_eq!(view.messages.as_ref().unwrap().len(), 100);
    assert_eq!(view.messages.as_ref().unwrap()[0].timestamp, 151);
    assert!(view.has_more_messages);
    check(&view);

    view.scroll_offset = 33;
    let paths = view.load_older_messages(&store);
    assert!(paths.is_empty());
    assert_eq!(view.messages.as_ref().unwrap().len(), 200);
    assert_eq!(view.messages.as_ref().unwrap()[0].timestamp, 51);
    // Backward paging never perturbs the scroll offset.
    assert_eq!(view.scroll_offset, 33);
    assert!(view.has_more_messages);
    check(&view);

    view.load_older_messages(&store);
    assert_eq!(view.messages.as_ref().unwrap().len(), 250);
    assert_eq!(view.messages.as_ref().unwrap()[0].timestamp, 1);
    // A short page ends pagination.
    assert!(!view.has_more_messages);
    check(&view);

    // Further calls are no-ops.
    view.load_older_messages(&store);
    assert_eq!(view.messages.as_ref().unwrap().len(), 250);
}

#[test]
fn load_messages_only_loads_once() {
    let store = seeded_store(3);
    let mut view = loaded_view(&store);
    assert!(!view.load_messages(&store));
    assert!(!view.has_more_messages);
    assert_eq!(view.messages.as_ref().unwrap().len(), 3);
}

#[test]
fn selection_enters_at_centre_and_moves_clamped() {
    let store = seeded_store(5);
    let mut view = loaded_view(&store);
    view.visible_range = Some((1, 3));
    view.enter_selection_mode();
    let sel = view.selection.unwrap();
    assert_eq!(sel.anchor, 2);
    assert_eq!(sel.cursor, 2);

    // Moving without extend snaps the anchor along.
    view.move_selection(1, false);
    let sel = view.selection.unwrap();
    assert_eq!((sel.anchor, sel.cursor), (3, 3));

    // Extending grows the range; the cursor clamps at the ends.
    view.move_selection(1, true);
    view.move_selection(1, true);
    let sel = view.selection.unwrap();
    assert_eq!((sel.anchor, sel.cursor), (3, 4));
    assert_eq!(sel.range(), (3, 4));

    // Shrinking steps the cursor toward the anchor.
    view.shrink_selection();
    let sel = view.selection.unwrap();
    assert_eq!((sel.anchor, sel.cursor), (3, 3));

    view.exit_selection_mode();
    assert!(view.selection.is_none());
}

#[test]
fn selection_without_visible_range_starts_at_the_end() {
    let store = seeded_store(4);
    let mut view = loaded_view(&store);
    view.enter_selection_mode();
    let sel = view.selection.unwrap();
    assert_eq!(sel.cursor, 3);
}

#[test]
fn selected_text_joins_lines() {
    let mut store = MemoryStorage::new();
    store.save_message(&msg(1, "alice", "first", false)).unwrap();
    store.save_message(&msg(2, "alice", "second", false)).unwrap();
    let sticker = Message {
        content: MessageContent::Sticker { pack_id: "p".to_string(), sticker_id: 7 },
        ..msg(3, "alice", "", false)
    };
    store.save_message(&sticker).unwrap();
    let atts = Message {
        content: MessageContent::Attachment {
            attachments: vec![
                AttachmentInfo {
                    id: None,
                    content_type: None,
                    filename: Some("a.txt".to_string()),
                    size: None,
                    local_path: None,
                },
                AttachmentInfo {
                    id: None,
                    content_type: None,
                    filename: None,
                    size: None,
                    local_path: None,
                },
            ],
        },
        ..msg(4, "alice", "", false)
    };
    store.save_message(&atts).unwrap();
    let mut view = loaded_view(&store);
    view.selection = Some(MessageSelection { anchor: 0, cursor: 3 });
    let text = view.get_selected_text().unwrap();
    assert_eq!(text, "first\nsecond\n[Sticker]\na.txt, [attachment]");
}

#[test]
fn deleting_a_range_returns_its_ids() {
    let store = seeded_store(5);
    let mut view = loaded_view(&store);
    view.selection = Some(MessageSelection { anchor: 3, cursor: 1 });
    let ids = view.delete_selected_messages();
    assert_eq!(ids.len(), 3);
    assert_eq!(ids[0], "id-alice-2");
    let msgs = view.messages.as_ref().unwrap();
    let left: Vec<i64> = msgs.iter().map(|m| m.timestamp).collect();
    assert_eq!(left, vec![1, 5]);
    assert!(view.selection.is_none());
}

#[test]
fn outgoing_timestamps_and_attachment_paths_from_selection() {
    let mut store = MemoryStorage::new();
    store.save_message(&msg(1, "me", "mine", true)).unwrap();
    store.save_message(&msg(2, "alice", "hers", false)).unwrap();
    let atts = Message {
        content: MessageContent::Attachment {
            attachments: vec![AttachmentInfo {
                id: Some("a9".to_string()),
                content_type: Some("image/png".to_string()),
                filename: None,
                size: None,
                local_path: Some("p9.png".to_string()),
            }],
        },
        ..msg(3, "me", "", true)
    };
    store.save_message(&atts).unwrap();
    let mut view = loaded_view(&store);
    view.selection = Some(MessageSelection { anchor: 0, cursor: 2 });
    assert_eq!(view.get_selected_outgoing_timestamps(), vec![1, 3]);
    assert_eq!(view.get_selected_attachment_paths(), vec!["p9.png".to_string()]);
    assert_eq!(view.collect_image_paths(), vec!["p9.png".to_string()]);
}

#[test]
fn unread_incoming_timestamps_skip_read_and_outgoing() {
    let mut store = MemoryStorage::new();
    store.save_message(&msg(1, "alice", "a", false)).unwrap();
    store.save_message(&msg(2, "me", "b", true)).unwrap();
    let read = Message { is_read: true, ..msg(3, "alice", "c", false) };
    store.save_message(&read).unwrap();
    let view = loaded_view(&store);
    assert_eq!(view.unread_incoming_timestamps(), vec![1]);
    assert!(has_unread(&view));
}

#[test]
fn remote_delete_targets_follow_the_conversation_kind() {
    let store = MemoryStorage::new();
    let direct = ConversationView {
        conversation: Conversation::new_direct("uuid-7".to_string(), None, None),
        messages: None,
        scroll_offset: 0,
        has_more_messages: true,
        selection: None,
        visible_range: None,
        last_message_preview: None,
    };
    match direct.remote_delete_target() {
        Some(RemoteDeleteTarget::Direct(s)) => assert_eq!(s, "uuid-7"),
        _ => panic!("expected a direct target"),
    }
    let group = ConversationView {
        conversation: Conversation::new_group("g1".to_string(), None),
        messages: None,
        scroll_offset: 0,
        has_more_messages: true,
        selection: None,
        visible_range: None,
        last_message_preview: None,
    };
    match group.remote_delete_target() {
        Some(RemoteDeleteTarget::Group(s)) => assert_eq!(s, "g1"),
        _ => panic!("expected a group target"),
    }
    let _ = store;
}

#[test]
fn editor_works_on_character_boundaries() {
    let mut input = InputState::default();
    for c in "héllo".chars() {
        input.insert(c);
    }
    assert_eq!(input.text, "héllo");
    assert_eq!(input.cursor, 5);
    input.move_left();
    input.move_left();
    input.delete_back();
    assert_eq!(input.text, "hélo");
    assert_eq!(input.cursor, 2);
    input.delete_forward();
    assert_eq!(input.text, "héo");
    input.move_start();
    input.insert('x');
    assert_eq!(input.text, "xhéo");
    input.move_end();
    assert_eq!(input.cursor, 4);
    let taken = input.clear();
    assert_eq!(taken, "xhéo");
    assert_eq!(input.text, "");
    assert_eq!(input.cursor, 0);
}

#[test]
fn browser_marks_and_navigates() {
    let mut fb = FileBrowserState::default();
    fb.set_entries(
        "/home".to_string(),
        vec![
            DirEntry { name: "docs".to_string(), path: "/home/docs".to_string(), is_dir: true, size: 0 },
            DirEntry { name: "a.txt".to_string(), path: "/home/a.txt".to_string(), is_dir: false, size: 10 },
            DirEntry { name: "b.txt".to_string(), path: "/home/b.txt".to_string(), is_dir: false, size: 20 },
        ],
    );
    // A directory cannot be marked.
    fb.toggle_mark();
    assert!(fb.marked.is_empty());
    // Mark both files.
    fb.move_selection(1);
    fb.toggle_mark();
    fb.move_selection(1);
    fb.toggle_mark();
    let picked = fb.get_marked_or_selected();
    assert_eq!(picked, vec!["/home/a.txt".to_string(), "/home/b.txt".to_string()]);
    // Unmark one again.
    fb.toggle_mark();
    let picked = fb.get_marked_or_selected();
    assert_eq!(picked, vec!["/home/a.txt".to_string()]);
    // With nothing marked, the selected file is picked.
    fb.go_top();
    fb.move_selection(1);
    fb.marked.clear();
    assert_eq!(fb.get_marked_or_selected(), vec!["/home/a.txt".to_string()]);
    // Selecting a directory picks nothing.
    fb.go_top();
    assert!(fb.get_marked_or_selected().is_empty());
    // Entering a directory clears the listing for a re-read.
    assert!(fb.enter_selected().is_none());
    assert_eq!(fb.current_dir, "/home/docs");
    assert!(fb.entries.is_empty());
    // Movement clamps.
    fb.go_bottom();
    fb.move_selection(5);
    assert_eq!(fb.selected, 0);
}

#[test]
fn browser_steps_to_the_parent_directory() {
    let mut fb = FileBrowserState::default();
    fb.set_entries("/home/user/docs".to_string(), Vec::new());
    fb.go_parent();
    assert_eq!(fb.current_dir, "/home/user");
    fb.go_parent();
    assert_eq!(fb.current_dir, "/home");
    fb.go_parent();
    assert_eq!(fb.current_dir, "/");
    // The root has no parent.
    fb.go_parent();
    assert_eq!(fb.current_dir, "/");
    // A trailing separator is ignored.
    fb.set_entries("/tmp/dir/".to_string(), Vec::new());
    fb.go_parent();
    assert_eq!(fb.current_dir, "/tmp");
    // A separator-free path is left alone.
    fb.set_entries("plain".to_string(), Vec::new());
    fb.go_parent();
    assert_eq!(fb.current_dir, "plain");
}

#[test]
fn previews_split_and_prefix() {
    let view = ConversationView {
        conversation: Conversation::new_direct("alice".to_string(), None, None),
        messages: None,
        scroll_offset: 0,
        has_more_messages: true,
        selection: None,
        visible_range: None,
        last_message_preview: Some(Message {
            is_outgoing: true,
            content: MessageContent::Text { body: "hi\nthere".to_string() },
            ..msg(9, "me", "", true)
        }),
    };
    let (l1, l2) = format_message_preview(&view, 40);
    assert_eq!(l1, "You: hi there");
    assert_eq!(l2, "");

    let (a, b) = split_into_lines("abcdefgh", 3);
    assert_eq!(a, "abc");
    assert_eq!(b, "de…");
    assert_eq!(b.chars().count(), 3);
    // Each line stays within the width even for the overflow case.
    let (c, d) = split_into_lines("abcdef", 2);
    assert_eq!(c, "ab");
    assert_eq!(d, "c…");
    let (a, b) = split_into_lines("abcde", 3);
    assert_eq!(a, "abc");
    assert_eq!(b, "de");
    let (a, b) = split_into_lines("ab", 3);
    assert_eq!(a, "ab");
    assert_eq!(b, "");
}

#[test]
fn sizes_format_in_units() {
    assert_eq!(format_size(512), "512B");
    assert_eq!(format_size(1536), "1.5K");
    assert_eq!(format_size(1024 * 1024), "1.0M");
    assert_eq!(format_size(3 * 1024 * 1024 * 1024 / 2), "1.5G");
    assert_eq!(u64_to_string(0), "0");
    assert_eq!(u64_to_string(90210), "90210");
}

#[test]
fn extensions_map_to_content_types() {
    assert_eq!(mime_from_extension("jpg"), Some("image/jpeg".to_string()));
    assert_eq!(mime_from_extension("png"), Some("image/png".to_string()));
    assert_eq!(mime_from_extension("pdf"), Some("application/pdf".to_string()));
    assert_eq!(mime_from_extension("nope"), None);
}

#[test]
fn text_helpers_really_transform() {
    assert_eq!(lowercase("AbC"), "abc");
    assert!(str_contains("hello world", "lo w"));
    assert!(!str_contains("hello", "xyz"));
    assert!(str_starts_with("image/png", "image/"));
    assert!(!str_starts_with("video/mp4", "image/"));
    assert!(str_eq("same", "same"));
    assert!(!str_eq("same", "other"));
    let a = fresh_uuid();
    let b = fresh_uuid();
    assert_eq!(a.chars().count(), 36);
    assert_ne!(a, b);
}

#[test]
fn display_names_fall_back_in_order() {
    let c = Conversation::new_direct(
        "uuid-1".to_string(),
        Some("+1555".to_string()),
        Some("Alice".to_string()),
    );
    assert_eq!(c.display_name(), "Alice");
    assert_eq!(c.identifier(), "uuid-1");
    let c2 = Conversation::new_direct("uuid-2".to_string(), Some("+1777".to_string()), None);
    assert_eq!(c2.display_name(), "+1777");
    let g = Conversation::new_group("g1".to_string(), None);
    assert_eq!(g.display_name(), "Unknown Group");
    assert_eq!(g.identifier(), "g1");

    let contact = signal_tty::protocol::Contact {
        number: Some("+1".to_string()),
        uuid: Some("u".to_string()),
        name: Some("Book Name".to_string()),
        profile_name: None,
        color: None,
        blocked: false,
    };
    assert_eq!(contact.display_name(), "Book Name");
    assert_eq!(contact.identifier(), Some("u".to_string()));
    let group = signal_tty::protocol::Group {
        id: "gid".to_string(),
        name: None,
        description: None,
        members: Vec::new(),
        is_blocked: false,
        is_member: false,
    };
    assert_eq!(group.display_name(), "gid");

    let envelope = signal_tty::protocol::Envelope {
        source: Some("+19".to_string()),
        source_uuid: None,
        source_name: None,
        source_device: None,
        timestamp: None,
        data_message: None,
        sync_message: None,
        receipt_message: None,
        typing_message: None,
        edit_message: None,
    };
    assert_eq!(envelope.sender_display(), "+19");
}

#[test]
fn signal_id_pairs_sender_and_timestamp() {
    let m = msg(77, "alice", "x", false);
    let (s, t) = m.signal_id();
    assert_eq!(s, "alice");
    assert_eq!(t, 77);
}

#[test]
fn store_update_and_mark_and_delete() {
    let mut store = MemoryStorage::new();
    store.save_message(&msg(1, "alice", "old", false)).unwrap();
    store.save_message(&msg(2, "alice", "keep", false)).unwrap();
    store
        .update_message_content(
            "alice",
            1,
            &MessageContent::Text { body: "new".to_string() },
        )
        .unwrap();
    assert!(store.msgs[0].is_edited);
    match &store.msgs[0].content {
        MessageContent::Text { body } => assert_eq!(body, "new"),
        _ => panic!("expected text"),
    }
    assert!(!store.msgs[1].is_edited);

    store.mark_messages_read("c1", 1).unwrap();
    assert!(store.msgs[0].is_read);
    assert!(!store.msgs[1].is_read);

    store.delete_message("id-alice-1").unwrap();
    assert_eq!(store.msgs.len(), 1);
    assert_eq!(store.msgs[0].timestamp, 2);
    // Deleting an unknown id is a no-op.
    store.delete_message("missing").unwrap();
    assert_eq!(store.msgs.len(), 1);
}

#[test]
fn list_conversations_sorts_newest_first() {
    let mut store = MemoryStorage::new();
    let a = store
        .get_or_create_direct_conversation("u1", None, None)
        .unwrap();
    let b = store
        .get_or_create_direct_conversation("u2", None, None)
        .unwrap();
    store
        .save_message(&Message { conversation_id: a.id.clone(), ..msg(10, "u1", "x", false) })
        .unwrap();
    store
        .save_message(&Message { conversation_id: b.id.clone(), ..msg(20, "u2", "y", false) })
        .unwrap();
    let listed = store.list_conversations().unwrap();
    assert_eq!(listed.len(), 2);
    assert_eq!(listed[0].last_message_timestamp, Some(20));
    assert_eq!(listed[1].last_message_timestamp, Some(10));
}
