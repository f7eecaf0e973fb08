use signal_tty::images::{calculate_display_size, decode_image_size, ImageCache, ImageState};
use signal_tty::layout::{
    calculate_message_height, message_heights, resolve_viewport, scroll_percent, total_height,
};
use signal_tty::model::{AttachmentInfo, Message, MessageContent};
use signal_tty::view::ConversationView;

fn text_message(ts: i64, body: &str) -> Message {
    Message {
        id: format!("id-{}", ts),
        conversation_id: "c1".to_string(),
        sender_uuid: "alice".to_string(),
        sender_name: Some("Ali".to_string()),
        timestamp: ts,
        server_timestamp: None,
        received_at: ts,
        content: MessageContent::Text { body: body.to_string() },
        quote: None,
        is_outgoing: false,
        is_read: true,
        is_deleted: false,
        is_edited: false,
    }
}

fn view_with(messages: Vec<Message>, scroll_offset: usize) -> ConversationView {
    ConversationView {
        conversation: signal_tty::model::Conversation::new_direct("alice".to_string(), None, None),
        messages: Some(messages),
        scroll_offset,
        has_more_messages: false,
        selection: None,
        visible_range: None,
        last_message_preview: None,
    }
}

#[test]
fn three_short_messages_fill_from_the_top() {
    // Viewport 20, three messages of height 1 each, offset 0: the visible
    // range is (0, 2) and nothing is skipped.
    let heights: Vec<u64> = vec![1, 1, 1];
    let (slice, off) = resolve_viewport(&heights, 0, 20, None);
    assert_eq!(off, 0);
    assert_eq!(slice.start_idx, 0);
    assert_eq!(slice.skip_lines, 0);
    assert_eq!(slice.end_idx, 2);
}

#[test]
fn resolve_scroll_publishes_visible_range() {
    let mut view = view_with(
        vec![text_message(1, "a"), text_message(2, "b"), text_message(3, "c")],
        0,
    );
    let heights: Vec<u64> = vec![1, 1, 1];
    let slice = view.resolve_scroll(&heights, 20);
    assert_eq!(view.visible_range, Some((0, 2)));
    assert_eq!(view.scroll_offset, 0);
    assert_eq!(slice.end_idx, 2);
}

#[test]
fn offsets_are_clamped_to_content() {
    // Total height 30, viewport 10: the largest offset is 20.
    let heights: Vec<u64> = vec![10, 10, 10];
    let (_, off) = resolve_viewport(&heights, 10_000, 10, None);
    assert_eq!(off, 20);
    let mut view = view_with(
        vec![text_message(1, "a"), text_message(2, "b"), text_message(3, "c")],
        10_000,
    );
    view.resolve_scroll(&heights, 10);
    assert_eq!(view.scroll_offset, 20);
}

#[test]
fn partial_message_at_the_top_is_skipped() {
    // Heights 5,5,5; viewport 7; offset 0: bottom = 15, top = 8, so the
    // second message starts the slice with 3 of its lines scrolled off.
    let heights: Vec<u64> = vec![5, 5, 5];
    let (slice, off) = resolve_viewport(&heights, 0, 7, None);
    assert_eq!(off, 0);
    assert_eq!(slice.start_idx, 1);
    assert_eq!(slice.skip_lines, 3);
    assert_eq!(slice.end_idx, 2);
}

#[test]
fn cursor_override_pulls_the_view_up() {
    // Ten messages of height 2, viewport 4. Offset 0 shows the last two;
    // a cursor on the first message drags the offset to the top.
    let heights: Vec<u64> = vec![2; 10];
    let (slice, off) = resolve_viewport(&heights, 0, 4, Some(0));
    assert_eq!(off, 16);
    assert_eq!(slice.start_idx, 0);
    assert_eq!(slice.skip_lines, 0);
}

#[test]
fn text_height_wraps_on_width() {
    // Sender "Ali" gives a prefix of 12 + 3 = 15 cells; body "hello" makes
    // 20; at width 8 that wraps to ceil(20 / 8) = 3 lines.
    let m = text_message(1, "hello");
    assert_eq!(calculate_message_height(&m, None, 8), 3);
    // Never below one line.
    let empty = text_message(1, "");
    assert_eq!(calculate_message_height(&empty, None, 200), 1);
}

#[test]
fn attachment_height_counts_headers_and_images() {
    let att = AttachmentInfo {
        id: Some("a1".to_string()),
        content_type: Some("image/png".to_string()),
        filename: Some("p.png".to_string()),
        size: Some(10),
        local_path: Some("p.png".to_string()),
    };
    let mut m = text_message(1, "");
    m.content = MessageContent::Attachment { attachments: vec![att] };
    // Without a cache the image placeholder is 8 lines tall: 1 + 8.
    assert_eq!(calculate_message_height(&m, None, 40), 9);
    // With a cache, an unloaded image uses the 4-line placeholder: 1 + 4.
    let cache = ImageCache::new("/tmp/attachments".to_string());
    assert_eq!(calculate_message_height(&m, Some(&cache), 40), 5);
    // Once loaded, the computed display height counts.
    let mut cache = cache;
    assert!(cache.begin_loading("p.png"));
    cache.install_result("p.png", Some((1920, 1080)), 60);
    assert_eq!(cache.get_image_height("p.png"), 17);
    assert_eq!(calculate_message_height(&m, Some(&cache), 40), 18);
}

#[test]
fn heights_and_total() {
    let msgs = vec![text_message(1, "a"), text_message(2, "b")];
    let heights = message_heights(&msgs, None, 100);
    assert_eq!(heights.len(), 2);
    assert_eq!(total_height(&heights), heights[0] + heights[1]);
}

#[test]
fn scroll_percent_endpoints() {
    assert_eq!(scroll_percent(0, 0), 100);
    assert_eq!(scroll_percent(0, 50), 100);
    assert_eq!(scroll_percent(50, 50), 0);
    assert_eq!(scroll_percent(25, 50), 50);
}

#[test]
fn hd_image_fits_sixty_cells() {
    // 1920x1080 pixels at 60 cells wide: the 2:1 cell correction gives a
    // height of 17, inside [4, 20], so the width stays 60.
    assert_eq!(calculate_display_size(1920, 1080, 60), (60, 17));
}

#[test]
fn tall_image_clamps_and_narrows() {
    // A tall strip clamps to 20 lines and recomputes the width.
    let (w, h) = calculate_display_size(100, 2000, 60);
    assert_eq!(h, 20);
    assert_eq!(w, 2);
    // A wide strip clamps to the 4-line floor.
    let (w2, h2) = calculate_display_size(4000, 100, 60);
    assert_eq!(h2, 4);
    assert_eq!(w2, 60);
    // Degenerate pixels fall back to the placeholder height.
    assert_eq!(calculate_display_size(0, 55, 33), (33, 4));
}

#[test]
fn decode_reads_pixel_dimensions() {
    let img = image::RgbImage::new(5, 3);
    let mut bytes: Vec<u8> = Vec::new();
    image::DynamicImage::ImageRgb8(img)
        .write_to(&mut std::io::Cursor::new(&mut bytes), image::ImageFormat::Png)
        .unwrap();
    assert_eq!(decode_image_size(&bytes), Some((5, 3)));
    assert_eq!(decode_image_size(&vec![1, 2, 3]), None);
}

#[test]
fn cache_states_advance_and_never_revert() {
    let mut cache = ImageCache::new("/tmp/att".to_string());
    assert!(cache.is_loading("x.png"));
    assert!(cache.begin_loading("x.png"));
    // A second request for the same path is dropped.
    assert!(!cache.begin_loading("x.png"));
    assert!(cache.is_loading("x.png"));
    cache.install_result("x.png", Some((8, 8)), 60);
    let state = cache.state_of("x.png").unwrap();
    assert!(matches!(state, ImageState::Loaded { .. }));
    // A late failure does not knock out the loaded entry.
    cache.mark_failed("x.png");
    assert!(matches!(
        cache.state_of("x.png").unwrap(),
        ImageState::Loaded { .. }
    ));
    assert!(!cache.is_loading("x.png"));
    // A failed decode records the failure.
    assert!(cache.begin_loading("y.png"));
    cache.install_result("y.png", None, 60);
    assert!(matches!(cache.state_of("y.png").unwrap(), ImageState::Failed));
    assert_eq!(cache.get_image_height("y.png"), 4);
    assert_eq!(cache.get_image_size("y.png"), None);
}

#[test]
fn request_paths_resolve_under_the_attachments_directory() {
    let cache = ImageCache::new("/data/att".to_string());
    assert_eq!(cache.resolve_request_path("/abs/p.png"), "/abs/p.png");
    assert_eq!(cache.resolve_request_path("rel.png"), "/data/att/rel.png");
    assert_eq!(cache.resolve_attachment_path("a1"), "/data/att/a1");
}

#[test]
fn is_image_checks_the_content_type_prefix() {
    assert!(ImageCache::is_image(Some(&"image/png".to_string())));
    assert!(!ImageCache::is_image(Some(&"video/mp4".to_string())));
    assert!(!ImageCache::is_image(None));
}
