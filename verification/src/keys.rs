//! Keyboard dispatch: plain key presses drive the engine, each key tied by
//! contract to the effect of the engine call it routes to. The terminal
//! backend translates its own event type into `KeyPress` outside the
//! library.

use vstd::prelude::*;

use crate::engine::{
    cycle_focus_post, scroll_down_post, scroll_up_post, select_moved_post, App, Focus,
};
use crate::input::{delete_back_post, delete_forward_post, insert_post, moved_cursor};
use crate::model::{count_signal_id, lemma_count_remove, msgs_view};
use crate::store::{store_inv, StorageRepository, StoreModel};
use crate::view::{
    delete_selected_post, enter_selection_post, joined_lines, move_selection_post, outgoing_ts,
    ConversationView, PendingRemoteDelete, RemoteDeleteTarget,
};

verus! {

/// A key, independent of any terminal backend.
#[derive(Debug, Clone, Copy, PartialEq, Eq, Structural)]
pub enum Key {
    Char(char),
    Up,
    Down,
    Left,
    Right,
    Home,
    End,
    PageUp,
    PageDown,
    Enter,
    Esc,
    Backspace,
    Delete,
    Tab,
}

/// One key press with its modifiers.
#[derive(Debug, Clone, Copy, PartialEq, Eq, Structural)]
pub struct KeyPress {
    pub code: Key,
    pub ctrl: bool,
    pub shift: bool,
}

/// Only the selected view changed, and only the listed fields of the engine.
pub open spec fn sel_view_frame(pre: App, post: App) -> bool {
    &&& post == (App { conversations: post.conversations, ..pre })
    &&& pre.selected < pre.conversations@.len()
    &&& post.conversations@ == pre.conversations@.update(
        pre.selected as int,
        post.conversations@[pre.selected as int],
    )
}

/// Repeated scroll steps touch only the selected view and the preload queue.
pub open spec fn scroll_steps_frame(pre: App, post: App) -> bool {
    &&& (pre.selected >= pre.conversations@.len() ==> post == pre)
    &&& post == (App {
        conversations: post.conversations,
        pending_preload_paths: post.pending_preload_paths,
        ..pre
    })
    &&& post.conversations@.len() == pre.conversations@.len()
    &&& (forall|w: int|
        0 <= w < pre.conversations@.len() && w != pre.selected as int
            ==> #[trigger] post.conversations@[w] == pre.conversations@[w])
}

/// Deleting rows never adds any: every signal id's count may only fall, and
/// the conversations are untouched.
pub open spec fn deletes_only(pre: StoreModel, post: StoreModel) -> bool {
    &&& post.convs == pre.convs
    &&& forall|snd: Seq<char>, t: i64| #[trigger] count_signal_id(post.msgs, snd, t)
        <= count_signal_id(pre.msgs, snd, t)
}

/// What the remote-delete key queues: when the selection holds outgoing
/// messages and the conversation has an address, one request with those
/// timestamps and that address; otherwise nothing.
pub open spec fn remote_delete_queued(pre: App, post: App, v: ConversationView) -> bool {
    match (v.selection, v.messages) {
        (Some(s), Some(m)) => {
            let ts = outgoing_ts(
                msgs_view(m@).subrange(s.spec_low() as int, s.spec_high() + 1),
            );
            let target_known = match v.conversation.conversation_type {
                crate::model::ConversationType::Direct => v.conversation@.recipient_uuid is Some
                    || v.conversation@.recipient_number is Some,
                crate::model::ConversationType::Group => v.conversation@.group_id is Some,
            };
            if ts.len() > 0 && target_known {
                &&& post.pending_remote_deletes@.len() == pre.pending_remote_deletes@.len() + 1
                &&& post.pending_remote_deletes@.drop_last() == pre.pending_remote_deletes@
                &&& post.pending_remote_deletes@.last().timestamps@ == ts
                &&& (match v.conversation.conversation_type {
                    crate::model::ConversationType::Direct => match (
                        v.conversation@.recipient_uuid,
                        v.conversation@.recipient_number,
                    ) {
                        (Some(u), _) => post.pending_remote_deletes@.last().target matches RemoteDeleteTarget::Direct(x)
                            && x@ == u,
                        (None, Some(n)) => post.pending_remote_deletes@.last().target matches RemoteDeleteTarget::Direct(x)
                            && x@ == n,
                        (None, None) => true,
                    },
                    crate::model::ConversationType::Group => match v.conversation@.group_id {
                        Some(g) => post.pending_remote_deletes@.last().target matches RemoteDeleteTarget::Group(x)
                            && x@ == g,
                        None => true,
                    },
                })
            } else {
                post.pending_remote_deletes == pre.pending_remote_deletes
            }
        },
        _ => post.pending_remote_deletes == pre.pending_remote_deletes,
    }
}

/// What each key does while a selection range is active.
pub open spec fn selection_key_post(
    pre: App,
    post: App,
    pre_store: StoreModel,
    post_store: StoreModel,
    key: KeyPress,
) -> bool {
    if pre.selected >= pre.conversations@.len() {
        post == pre && post_store == pre_store
    } else {
        let sel = pre.selected as int;
        let v = pre.conversations@[sel];
        match key.code {
            Key::Up => sel_view_frame(pre, post) && move_selection_post(
                v,
                post.conversations@[sel],
                -1i32,
                key.shift,
            ) && post_store == pre_store,
            Key::Down => sel_view_frame(pre, post) && move_selection_post(
                v,
                post.conversations@[sel],
                1i32,
                key.shift,
            ) && post_store == pre_store,
            Key::Char(c) => if c == 'k' {
                sel_view_frame(pre, post) && move_selection_post(
                    v,
                    post.conversations@[sel],
                    -1i32,
                    key.shift,
                ) && post_store == pre_store
            } else if c == 'K' {
                sel_view_frame(pre, post) && move_selection_post(
                    v,
                    post.conversations@[sel],
                    -1i32,
                    true,
                ) && post_store == pre_store
            } else if c == 'j' {
                sel_view_frame(pre, post) && move_selection_post(
                    v,
                    post.conversations@[sel],
                    1i32,
                    key.shift,
                ) && post_store == pre_store
            } else if c == 'J' {
                sel_view_frame(pre, post) && move_selection_post(
                    v,
                    post.conversations@[sel],
                    1i32,
                    true,
                ) && post_store == pre_store
            } else if c == 'y' {
                &&& post == (App {
                    conversations: post.conversations,
                    pending_clipboard: post.pending_clipboard,
                    ..pre
                })
                &&& post.conversations@ == pre.conversations@.update(
                    sel,
                    (ConversationView { selection: None, ..v }),
                )
                &&& (match (v.selection, v.messages) {
                    (Some(s), Some(m)) => post.pending_clipboard matches Some(t) && t@
                        == joined_lines(msgs_view(m@), s.spec_low() as int, s.spec_high() as int),
                    _ => post.pending_clipboard == pre.pending_clipboard,
                })
                &&& post_store == pre_store
            } else if c == 'd' {
                &&& sel_view_frame(pre, post)
                &&& (exists|ids: Seq<Seq<char>>|
                    #[trigger] delete_selected_post(v, post.conversations@[sel], ids))
                &&& deletes_only(pre_store, post_store)
            } else if c == 'D' {
                &&& post == (App {
                    conversations: post.conversations,
                    pending_remote_deletes: post.pending_remote_deletes,
                    ..pre
                })
                &&& pre.selected < pre.conversations@.len()
                &&& post.conversations@ == pre.conversations@.update(
                    sel,
                    post.conversations@[sel],
                )
                &&& (exists|ids: Seq<Seq<char>>|
                    #[trigger] delete_selected_post(v, post.conversations@[sel], ids))
                &&& deletes_only(pre_store, post_store)
                &&& remote_delete_queued(pre, post, v)
            } else {
                post == pre && post_store == pre_store
            },
            _ => post == pre && post_store == pre_store,
        }
    }
}

/// What each key does while the timeline is focused.
pub open spec fn messages_key_post(
    pre: App,
    post: App,
    pre_store: StoreModel,
    post_store: StoreModel,
    key: KeyPress,
) -> bool {
    let in_sel = pre.selected < pre.conversations@.len()
        && pre.conversations@[pre.selected as int].selection is Some;
    if in_sel {
        selection_key_post(pre, post, pre_store, post_store, key)
    } else {
        &&& post_store == pre_store
        &&& (match key.code {
            Key::Up => scroll_up_post(pre, post, pre_store),
            Key::Down => scroll_down_post(pre, post),
            Key::PageUp => scroll_steps_frame(pre, post),
            Key::Home => scroll_steps_frame(pre, post),
            Key::PageDown => {
                &&& (pre.selected >= pre.conversations@.len() ==> post == pre)
                &&& (pre.selected < pre.conversations@.len() ==> post == (App {
                    conversations: post.conversations,
                    ..pre
                }) && post.conversations@ == pre.conversations@.update(
                    pre.selected as int,
                    (ConversationView {
                        scroll_offset: (if pre.conversations@[pre.selected as int].scroll_offset
                            >= 10 * crate::layout::SCROLL_LINES {
                            pre.conversations@[pre.selected as int].scroll_offset - 10
                                * crate::layout::SCROLL_LINES
                        } else {
                            0int
                        }) as usize,
                        ..pre.conversations@[pre.selected as int]
                    }),
                ))
            },
            Key::End => {
                &&& (pre.selected >= pre.conversations@.len() ==> post == pre)
                &&& (pre.selected < pre.conversations@.len() ==> sel_view_frame(pre, post)
                    && post.conversations@[pre.selected as int] == (ConversationView {
                    scroll_offset: 0,
                    ..pre.conversations@[pre.selected as int]
                }))
            },
            Key::Enter => post == (App { focus: Focus::Input, ..pre }),
            Key::Char(c) => if c == 'k' {
                scroll_up_post(pre, post, pre_store)
            } else if c == 'j' {
                scroll_down_post(pre, post)
            } else if c == 'i' {
                post == (App { focus: Focus::Input, ..pre })
            } else if c == 'v' {
                &&& (pre.selected >= pre.conversations@.len() ==> post == pre)
                &&& (pre.selected < pre.conversations@.len() ==> sel_view_frame(pre, post)
                    && enter_selection_post(
                    pre.conversations@[pre.selected as int],
                    post.conversations@[pre.selected as int],
                ))
            } else {
                post == pre
            },
            _ => post == pre,
        })
    }
}

/// What each key does while the composer is focused.
pub open spec fn input_key_post(pre: App, post: App, key: KeyPress) -> bool {
    match key.code {
        Key::Enter => {
            &&& post == (App { input: post.input, pending_send: post.pending_send, ..pre })
            &&& post.input.text@.len() == 0
            &&& post.input.cursor == 0
            &&& (if pre.input.text@.len() > 0 && pre.selected < pre.conversations@.len() {
                post.pending_send matches Some(t) && t@ == pre.input.text@
            } else {
                post.pending_send == pre.pending_send
            })
        },
        Key::Backspace => post == (App { input: post.input, ..pre }) && delete_back_post(
            pre.input,
            post.input,
        ),
        Key::Delete => post == (App { input: post.input, ..pre }) && delete_forward_post(
            pre.input,
            post.input,
        ),
        Key::Left => post == (App { input: post.input, ..pre }) && moved_cursor(
            pre.input,
            post.input,
            if pre.input.cursor > 0 {
                pre.input.cursor - 1
            } else {
                0int
            },
        ),
        Key::Right => post == (App { input: post.input, ..pre }) && moved_cursor(
            pre.input,
            post.input,
            if pre.input.cursor < pre.input.text@.len() {
                pre.input.cursor + 1
            } else {
                pre.input.cursor as int
            },
        ),
        Key::Home => post == (App { input: post.input, ..pre }) && moved_cursor(
            pre.input,
            post.input,
            0,
        ),
        Key::End => post == (App { input: post.input, ..pre }) && moved_cursor(
            pre.input,
            post.input,
            pre.input.text@.len() as int,
        ),
        Key::Char(c) => if !key.ctrl {
            post == (App { input: post.input, ..pre }) && insert_post(pre.input, post.input, c)
        } else {
            post == pre
        },
        _ => post == pre,
    }
}

/// What each key does while the conversation list is focused.
pub open spec fn conversations_key_post(pre: App, post: App, key: KeyPress) -> bool {
    match key.code {
        Key::Up | Key::Down => select_moved_post(pre, post),
        Key::Enter => post == (App { focus: Focus::Input, ..pre }),
        Key::Char(c) => if c == 'k' || c == 'j' {
            select_moved_post(pre, post)
        } else if c == '/' {
            post == (App { focus: Focus::ConversationFilter, ..pre })
        } else if c == 'i' {
            post == (App { focus: Focus::Input, ..pre })
        } else {
            post == pre
        },
        _ => post == pre,
    }
}

/// What each key does while the filter line is focused: edits apply to the
/// filter text and the selection is pulled onto a shown conversation.
pub open spec fn filter_key_post(pre: App, post: App, key: KeyPress) -> bool {
    match key.code {
        Key::Enter => post == (App { focus: Focus::Conversations, ..pre }),
        Key::Up | Key::Down => select_moved_post(pre, post),
        Key::Backspace => delete_back_post(pre.filter_input, post.filter_input)
            && select_moved_post((App { filter_input: post.filter_input, ..pre }), post),
        Key::Delete => delete_forward_post(pre.filter_input, post.filter_input)
            && select_moved_post((App { filter_input: post.filter_input, ..pre }), post),
        Key::Left => post == (App { filter_input: post.filter_input, ..pre }) && moved_cursor(
            pre.filter_input,
            post.filter_input,
            if pre.filter_input.cursor > 0 {
                pre.filter_input.cursor - 1
            } else {
                0int
            },
        ),
        Key::Right => post == (App { filter_input: post.filter_input, ..pre }) && moved_cursor(
            pre.filter_input,
            post.filter_input,
            if pre.filter_input.cursor < pre.filter_input.text@.len() {
                pre.filter_input.cursor + 1
            } else {
                pre.filter_input.cursor as int
            },
        ),
        Key::Home => post == (App { filter_input: post.filter_input, ..pre }) && moved_cursor(
            pre.filter_input,
            post.filter_input,
            0,
        ),
        Key::End => post == (App { filter_input: post.filter_input, ..pre }) && moved_cursor(
            pre.filter_input,
            post.filter_input,
            pre.filter_input.text@.len() as int,
        ),
        Key::Char(c) => if !key.ctrl {
            insert_post(pre.filter_input, post.filter_input, c) && select_moved_post(
                (App { filter_input: post.filter_input, ..pre }),
                post,
            )
        } else {
            post == pre
        },
        _ => post == pre,
    }
}

/// What each key does while the attachment picker is focused.
pub open spec fn browser_key_post(pre: App, post: App, key: KeyPress) -> bool {
    match key.code {
        Key::Up => post == (App { file_browser: post.file_browser, ..pre })
            && crate::browser::move_selection_post(pre.file_browser, post.file_browser, -1i32),
        Key::Down => post == (App { file_browser: post.file_browser, ..pre })
            && crate::browser::move_selection_post(pre.file_browser, post.file_browser, 1i32),
        Key::Home => post == (App { file_browser: post.file_browser, ..pre })
            && post.file_browser == (crate::browser::FileBrowserState {
            selected: 0,
            ..pre.file_browser
        }),
        Key::End => post == (App { file_browser: post.file_browser, ..pre }) && (
        pre.file_browser.entries@.len() > 0 ==> post.file_browser
            == (crate::browser::FileBrowserState {
            selected: (pre.file_browser.entries@.len() - 1) as usize,
            ..pre.file_browser
        })) && (pre.file_browser.entries@.len() == 0 ==> post == pre),
        Key::Backspace => post == (App { file_browser: post.file_browser, ..pre })
            && crate::browser::go_parent_post(pre.file_browser, post.file_browser),
        Key::Enter => exists|picked: Option<Seq<char>>|
            #[trigger] crate::browser::enter_selected_post(
                pre.file_browser,
                post.file_browser,
                picked,
            ) && (match picked {
                Some(p) => post == (App {
                    file_browser: post.file_browser,
                    pending_attachments: post.pending_attachments,
                    focus: Focus::Input,
                    ..pre
                }) && crate::view::strs_view(post.pending_attachments@) == crate::view::strs_view(
                    pre.pending_attachments@,
                ).push(p),
                None => post == (App { file_browser: post.file_browser, ..pre }),
            }),
        Key::Char(c) => if c == 'k' {
            post == (App { file_browser: post.file_browser, ..pre })
                && crate::browser::move_selection_post(pre.file_browser, post.file_browser, -1i32)
        } else if c == 'j' {
            post == (App { file_browser: post.file_browser, ..pre })
                && crate::browser::move_selection_post(pre.file_browser, post.file_browser, 1i32)
        } else if c == ' ' {
            post == (App { file_browser: post.file_browser, ..pre })
                && crate::browser::toggle_mark_post(pre.file_browser, post.file_browser)
        } else if c == 'h' {
            post == (App { file_browser: post.file_browser, ..pre }) && post.file_browser
                == (crate::browser::FileBrowserState {
                show_hidden: !pre.file_browser.show_hidden,
                ..pre.file_browser
            })
        } else {
            post == pre
        },
        _ => post == pre,
    }
}

/// What a key press does once the focused pane is known.
pub open spec fn dispatched_post(
    pre: App,
    post: App,
    pre_store: StoreModel,
    post_store: StoreModel,
    key: KeyPress,
) -> bool {
    match pre.focus {
        Focus::Conversations => conversations_key_post(pre, post, key) && post_store == pre_store,
        Focus::ConversationFilter => filter_key_post(pre, post, key) && post_store == pre_store,
        Focus::Messages => messages_key_post(pre, post, pre_store, post_store, key),
        Focus::Input => input_key_post(pre, post, key) && post_store == pre_store,
        Focus::FileBrowser => browser_key_post(pre, post, key) && post_store == pre_store,
    }
}

/// What one key press does: global shortcuts first (quit, focus jumps,
/// leaving selection mode), then the focused pane's binding.
pub open spec fn key_event_post(
    pre: App,
    post: App,
    pre_store: StoreModel,
    post_store: StoreModel,
    key: KeyPress,
) -> bool {
    if key.code == (Key::Tab) {
        cycle_focus_post(pre, post) && post_store == pre_store
    } else if key.code == (Key::Esc) {
        let in_sel = pre.selected < pre.conversations@.len()
            && pre.conversations@[pre.selected as int].selection is Some;
        &&& post_store == pre_store
        &&& (if in_sel {
            post == (App { conversations: post.conversations, ..pre }) && post.conversations@
                == pre.conversations@.update(
                pre.selected as int,
                (ConversationView {
                    selection: None,
                    ..pre.conversations@[pre.selected as int]
                }),
            )
        } else {
            post == (App { focus: post.focus, filter_input: post.filter_input, ..pre })
                && post.focus == (if pre.focus == Focus::Input {
                Focus::Messages
            } else {
                Focus::Conversations
            }) && post.filter_input.text@.len() == 0 && post.filter_input.cursor == 0
        })
    } else {
        match key.code {
            Key::Char(c) => if c == 'c' && key.ctrl {
                post == (App { should_quit: true, ..pre }) && post_store == pre_store
            } else if c == 'q' && !key.ctrl && !key.shift && pre.focus != Focus::Input
                && pre.focus != Focus::ConversationFilter {
                post == (App { should_quit: true, ..pre }) && post_store == pre_store
            } else if c == 'h' && key.ctrl {
                post == (App { focus: Focus::Conversations, filter_input: post.filter_input, ..pre })
                    && post.filter_input.text@.len() == 0 && post.filter_input.cursor == 0
                    && post_store == pre_store
            } else if c == 'l' && key.ctrl {
                post == (App { focus: Focus::Messages, ..pre }) && post_store == pre_store
            } else {
                dispatched_post(pre, post, pre_store, post_store, key)
            },
            _ => dispatched_post(pre, post, pre_store, post_store, key),
        }
    }
}

/// Routes one key press: global shortcuts first, then the focused pane.
pub fn handle_key_event<S: StorageRepository>(app: &mut App, store: &mut S, key: KeyPress)
    requires
        store_inv(old(store).store()),
        old(app).wf(),
    ensures
        final(app).wf(),
        store_inv(final(store).store()),
        key_event_post(*old(app), *final(app), old(store).store(), final(store).store(), key),
{
    // Global shortcuts.
    match key.code {
        Key::Char(c) => {
            if c == 'c' && key.ctrl {
                app.should_quit = true;
                return ;
            }
            if c == 'q' && !key.ctrl && !key.shift && !matches!(app.focus, Focus::Input)
                && !matches!(app.focus, Focus::ConversationFilter) {
                app.should_quit = true;
                return ;
            }
            if c == 'h' && key.ctrl {
                let _ = app.filter_input.clear();
                app.focus = Focus::Conversations;
                return ;
            }
            if c == 'l' && key.ctrl {
                app.focus = Focus::Messages;
                return ;
            }
        },
        Key::Tab => {
            app.cycle_focus();
            return ;
        },
        Key::Esc => {
            let in_selection = app.selected < app.conversations.len()
                && app.conversations[app.selected].selection.is_some();
            if in_selection {
                proof {
                    assert(app.conversations@[app.selected as int].wf());
                }
                let conv = &mut app.conversations[app.selected];
                conv.exit_selection_mode();
                return ;
            }
            let _ = app.filter_input.clear();
            app.focus = if matches!(app.focus, Focus::Input) {
                Focus::Messages
            } else {
                Focus::Conversations
            };
            return ;
        },
        _ => {},
    }
    match app.focus {
        Focus::Conversations => handle_conversations_key(app, store, key),
        Focus::ConversationFilter => handle_conversation_filter_key(app, store, key),
        Focus::Messages => handle_messages_key(app, store, key),
        Focus::Input => handle_input_key(app, key),
        Focus::FileBrowser => handle_file_browser_key(app, key),
    }
}

/// Keys while the conversation list is focused.
fn handle_conversations_key<S: StorageRepository>(app: &mut App, store: &S, key: KeyPress)
    requires
        store_inv(store.store()),
        old(app).wf(),
    ensures
        final(app).wf(),
        conversations_key_post(*old(app), *final(app), key),
{
    let has_filter = app.filter_input.text.as_str().unicode_len() > 0;
    match key.code {
        Key::Up => {
            if has_filter {
                app.select_filtered(store, -1);
            } else {
                app.select_prev(store);
            }
        },
        Key::Down => {
            if has_filter {
                app.select_filtered(store, 1);
            } else {
                app.select_next(store);
            }
        },
        Key::Enter => {
            app.focus = Focus::Input;
        },
        Key::Char(c) => {
            if c == 'k' {
                if has_filter {
                    app.select_filtered(store, -1);
                } else {
                    app.select_prev(store);
                }
            } else if c == 'j' {
                if has_filter {
                    app.select_filtered(store, 1);
                } else {
                    app.select_next(store);
                }
            } else if c == '/' {
                app.focus = Focus::ConversationFilter;
            } else if c == 'i' {
                app.focus = Focus::Input;
            }
        },
        _ => {},
    }
}

/// Keys while the conversation filter line is focused.
fn handle_conversation_filter_key<S: StorageRepository>(app: &mut App, store: &S, key: KeyPress)
    requires
        store_inv(store.store()),
        old(app).wf(),
    ensures
        final(app).wf(),
        filter_key_post(*old(app), *final(app), key),
{
    match key.code {
        Key::Enter => {
            app.focus = Focus::Conversations;
        },
        Key::Up => {
            app.select_filtered(store, -1);
        },
        Key::Down => {
            app.select_filtered(store, 1);
        },
        Key::Backspace => {
            app.filter_input.delete_back();
            app.ensure_selection_matches_filter(store);
        },
        Key::Delete => {
            app.filter_input.delete_forward();
            app.ensure_selection_matches_filter(store);
        },
        Key::Left => {
            app.filter_input.move_left();
        },
        Key::Right => {
            app.filter_input.move_right();
        },
        Key::Home => {
            app.filter_input.move_start();
        },
        Key::End => {
            app.filter_input.move_end();
        },
        Key::Char(c) => {
            if !key.ctrl {
                app.filter_input.insert(c);
                app.ensure_selection_matches_filter(store);
            }
        },
        _ => {},
    }
}

/// Keys while the timeline is focused.
fn handle_messages_key<S: StorageRepository>(app: &mut App, store: &mut S, key: KeyPress)
    requires
        store_inv(old(store).store()),
        old(app).wf(),
    ensures
        final(app).wf(),
        store_inv(final(store).store()),
        messages_key_post(*old(app), *final(app), old(store).store(), final(store).store(), key),
{
    let in_selection = app.selected < app.conversations.len()
        && app.conversations[app.selected].selection.is_some();
    if in_selection {
        handle_selection_key(app, store, key);
        return ;
    }
    match key.code {
        Key::Up => app.scroll_messages_up(store),
        Key::Down => app.scroll_messages_down(),
        Key::PageUp => {
            let ghost snap = *app;
            let mut n: usize = 0;
            while n < 10
                invariant
                    app.wf(),
                    store_inv(store.store()),
                    scroll_steps_frame(snap, *app),
                decreases 10 - n,
            {
                app.scroll_messages_up(store);
                n = n + 1;
            }
        },
        Key::PageDown => {
            let ghost snap = *app;
            proof {
                if snap.selected < snap.conversations@.len() {
                    assert(snap.conversations@.update(
                        snap.selected as int,
                        snap.conversations@[snap.selected as int],
                    ) =~= snap.conversations@);
                }
            }
            let mut n: usize = 0;
            while n < 10
                invariant
                    n <= 10,
                    app.wf(),
                    snap.selected >= snap.conversations@.len() ==> *app == snap,
                    snap.selected < snap.conversations@.len() ==> *app == (App {
                        conversations: app.conversations,
                        ..snap
                    }) && app.conversations@ == snap.conversations@.update(
                        snap.selected as int,
                        (ConversationView {
                            scroll_offset: (
                            if snap.conversations@[snap.selected as int].scroll_offset >= n
                                * crate::layout::SCROLL_LINES {
                                snap.conversations@[snap.selected as int].scroll_offset - n
                                    * crate::layout::SCROLL_LINES
                            } else {
                                0int
                            }) as usize,
                            ..snap.conversations@[snap.selected as int]
                        }),
                    ),
                decreases 10 - n,
            {
                let ghost mid = *app;
                app.scroll_messages_down();
                proof {
                    if snap.selected < snap.conversations@.len() {
                        assert(app.conversations@ =~= snap.conversations@.update(
                            snap.selected as int,
                            (ConversationView {
                                scroll_offset: (
                                if snap.conversations@[snap.selected as int].scroll_offset > (n
                                    + 1) * crate::layout::SCROLL_LINES || snap.conversations@[snap.selected as int].scroll_offset
                                    == (n + 1) * crate::layout::SCROLL_LINES {
                                    snap.conversations@[snap.selected as int].scroll_offset - (n
                                        + 1) * crate::layout::SCROLL_LINES
                                } else {
                                    0int
                                }) as usize,
                                ..snap.conversations@[snap.selected as int]
                            }),
                        ));
                    }
                }
                n = n + 1;
            }
        },
        Key::Home => {
            let ghost snap = *app;
            let mut n: usize = 0;
            while n < 1000
                invariant
                    app.wf(),
                    store_inv(store.store()),
                    scroll_steps_frame(snap, *app),
                decreases 1000 - n,
            {
                app.scroll_messages_up(store);
                n = n + 1;
            }
        },
        Key::End => {
            if app.selected < app.conversations.len() {
                proof {
                    assert(app.conversations@[app.selected as int].wf());
                }
                let conv = &mut app.conversations[app.selected];
                conv.scroll_to_bottom();
            }
        },
        Key::Enter => {
            app.focus = Focus::Input;
        },
        Key::Char(c) => {
            if c == 'k' {
                app.scroll_messages_up(store);
            } else if c == 'j' {
                app.scroll_messages_down();
            } else if c == 'i' {
                app.focus = Focus::Input;
            } else if c == 'v' {
                if app.selected < app.conversations.len() {
                    proof {
                        assert(app.conversations@[app.selected as int].wf());
                    }
                    let conv = &mut app.conversations[app.selected];
                    conv.enter_selection_mode();
                }
            }
        },
        _ => {},
    }
}

/// Deletes the given rows from the store, one by one.
#[verifier::loop_isolation(false)]
fn delete_rows<S: StorageRepository>(store: &mut S, ids: &Vec<String>)
    requires
        store_inv(old(store).store()),
    ensures
        store_inv(final(store).store()),
        deletes_only(old(store).store(), final(store).store()),
{
    broadcast use vstd::seq_lib::group_to_multiset_ensures;

    let mut i: usize = 0;
    while i < ids.len()
        invariant
            store_inv(store.store()),
            deletes_only(old(store).store(), store.store()),
        decreases ids@.len() - i,
    {
        let ghost mid = store.store();
        let _ = store.delete_message(ids[i].as_str());
        proof {
            assert forall|snd: Seq<char>, t: i64| #[trigger] count_signal_id(
                store.store().msgs,
                snd,
                t,
            ) <= count_signal_id(mid.msgs, snd, t) by {
                if store.store().msgs != mid.msgs {
                    let j = choose|j: int|
                        0 <= j < mid.msgs.len() && (#[trigger] mid.msgs[j]).id == ids@[i as int]@
                            && store.store().msgs == mid.msgs.remove(j);
                    lemma_count_remove(mid.msgs, j, snd, t);
                }
            }
        }
        i = i + 1;
    }
}

/// Keys while a selection range is active in the timeline.
fn handle_selection_key<S: StorageRepository>(app: &mut App, store: &mut S, key: KeyPress)
    requires
        store_inv(old(store).store()),
        old(app).wf(),
    ensures
        final(app).wf(),
        store_inv(final(store).store()),
        selection_key_post(*old(app), *final(app), old(store).store(), final(store).store(), key),
{
    if app.selected >= app.conversations.len() {
        return ;
    }
    proof {
        assert(app.conversations@[app.selected as int].wf());
    }
    match key.code {
        Key::Up => {
            let conv = &mut app.conversations[app.selected];
            conv.move_selection(-1, key.shift);
        },
        Key::Down => {
            let conv = &mut app.conversations[app.selected];
            conv.move_selection(1, key.shift);
        },
        Key::Char(c) => {
            if c == 'k' {
                let conv = &mut app.conversations[app.selected];
                conv.move_selection(-1, key.shift);
            } else if c == 'K' {
                let conv = &mut app.conversations[app.selected];
                conv.move_selection(-1, true);
            } else if c == 'j' {
                let conv = &mut app.conversations[app.selected];
                conv.move_selection(1, key.shift);
            } else if c == 'J' {
                let conv = &mut app.conversations[app.selected];
                conv.move_selection(1, true);
            } else if c == 'y' {
                // The copied text is handed to the runtime's clipboard.
                let text = app.conversations[app.selected].get_selected_text();
                if let Some(t) = text {
                    app.pending_clipboard = Some(t);
                }
                let conv = &mut app.conversations[app.selected];
                conv.exit_selection_mode();
            } else if c == 'd' {
                let conv = &mut app.conversations[app.selected];
                let ids = conv.delete_selected_messages();
                delete_rows(store, &ids);
            } else if c == 'D' {
                let timestamps = app.conversations[app.selected].get_selected_outgoing_timestamps();
                let target = app.conversations[app.selected].remote_delete_target();
                let conv = &mut app.conversations[app.selected];
                let ids = conv.delete_selected_messages();
                delete_rows(store, &ids);
                if let Some(target) = target {
                    if timestamps.len() > 0 {
                        let ghost pending_pre = app.pending_remote_deletes@;
                        app.pending_remote_deletes.push(
                            PendingRemoteDelete { target, timestamps },
                        );
                        proof {
                            assert(app.pending_remote_deletes@.drop_last() =~= pending_pre);
                        }
                    }
                }
            }
        },
        _ => {},
    }
}

/// Keys while the composer is focused.
fn handle_input_key(app: &mut App, key: KeyPress)
    requires
        old(app).wf(),
    ensures
        final(app).wf(),
        input_key_post(*old(app), *final(app), key),
{
    match key.code {
        Key::Enter => {
            let text = app.input.clear();
            if text.as_str().unicode_len() > 0 {
                app.queue_send_message(text);
            }
        },
        Key::Backspace => {
            app.input.delete_back();
        },
        Key::Delete => {
            app.input.delete_forward();
        },
        Key::Left => {
            app.input.move_left();
        },
        Key::Right => {
            app.input.move_right();
        },
        Key::Home => {
            app.input.move_start();
        },
        Key::End => {
            app.input.move_end();
        },
        Key::Char(c) => {
            if !key.ctrl {
                app.input.insert(c);
            }
        },
        _ => {},
    }
}

/// Keys while the attachment picker is focused.
fn handle_file_browser_key(app: &mut App, key: KeyPress)
    requires
        old(app).wf(),
    ensures
        final(app).wf(),
        browser_key_post(*old(app), *final(app), key),
{
    match key.code {
        Key::Up => app.file_browser.move_selection(-1),
        Key::Down => app.file_browser.move_selection(1),
        Key::Home => app.file_browser.go_top(),
        Key::End => app.file_browser.go_bottom(),
        Key::Backspace => app.file_browser.go_parent(),
        Key::Enter => {
            let picked = app.file_browser.enter_selected();
            if let Some(path) = picked {
                let ghost p = path@;
                let ghost pending_pre = app.pending_attachments@;
                app.pending_attachments.push(path);
                app.focus = Focus::Input;
                proof {
                    assert(crate::view::strs_view(app.pending_attachments@)
                        =~= crate::view::strs_view(pending_pre).push(p));
                }
            }
        },
        Key::Char(c) => {
            if c == 'k' {
                app.file_browser.move_selection(-1);
            } else if c == 'j' {
                app.file_browser.move_selection(1);
            } else if c == ' ' {
                app.file_browser.toggle_mark();
            } else if c == 'h' {
                app.file_browser.toggle_hidden();
            }
        },
        _ => {},
    }
}

} // verus!
