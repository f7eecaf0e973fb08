//! The application engine: the conversation list, focus, pending work, and
//! the reconciler that folds inbound protocol events into stored messages.

use vstd::prelude::*;

use crate::browser::FileBrowserState;
use crate::input::InputState;
use crate::model::{
    conv_display_name, count_signal_id, has_signal_id, lemma_count_zero_iff_none, msgs_view,
    opt_view, AttachmentInfo, Conversation, ConversationType, Message, MessageContent,
};
use crate::protocol::{Attachment, DataMessage, EditMessage, Envelope, IncomingMessage};
use crate::store::{edited_msg, store_inv, watermark_key, StorageRepository};
use crate::text::{contains_seq, lower_of, lowercase, str_contains, str_eq};
use crate::view::{loaded_msgs, opt_msg_view, ConversationView, PendingRemoteDelete};

verus! {

/// Which pane owns the keyboard.
#[derive(Debug, Clone, Copy, PartialEq, Eq, Structural)]
pub enum Focus {
    Conversations,
    ConversationFilter,
    Messages,
    Input,
    FileBrowser,
}

/// Where an outbound message is addressed.
#[derive(Debug, Clone)]
pub enum SendTarget {
    Direct(String),
    Group(String),
}

/// The single-threaded engine state. All mutation happens through its
/// methods; the store is a borrowed collaborator.
pub struct App {
    pub my_uuid: Option<String>,
    pub my_number: Option<String>,
    pub conversations: Vec<ConversationView>,
    pub selected: usize,
    pub focus: Focus,
    pub input: InputState,
    pub filter_input: InputState,
    pub file_browser: FileBrowserState,
    pub pending_attachments: Vec<String>,
    pub should_quit: bool,
    pub status_message: Option<String>,
    pub pending_send: Option<String>,
    pub pending_remote_deletes: Vec<PendingRemoteDelete>,
    pub pending_clipboard: Option<String>,
    pub messages_height: usize,
    pub needs_image_preload: bool,
    pub pending_preload_paths: Vec<String>,
    pub show_empty_conversations: bool,
}

/// Conversation views ordered newest watermark first.
pub open spec fn views_sorted_desc(s: Seq<ConversationView>) -> bool {
    forall|i: int, j: int|
        0 <= i < j < s.len() ==> #[trigger] watermark_key(s[i].conversation@)
            >= #[trigger] watermark_key(s[j].conversation@)
}

/// The conversation records the views hold.
pub open spec fn views_convs(s: Seq<ConversationView>) -> Seq<crate::model::ConversationModel> {
    s.map_values(|v: ConversationView| v.conversation@)
}

/// A conversation list as `load_conversations` rebuilds it: sorted newest
/// first, carrying exactly the store's conversation records, with no
/// selection or visible range anywhere.
pub open spec fn rebuilt_views(s: Seq<ConversationView>, store: crate::store::StoreModel) -> bool {
    &&& views_sorted_desc(s)
    &&& views_convs(s).to_multiset() == store.convs.to_multiset()
    &&& forall|i: int|
        0 <= i < s.len() ==> (#[trigger] s[i]).selection is None && s[i].visible_range is None
}

/// A view's watermark after a message lands in it: the monotonic maximum of
/// the old watermark and the message's timestamp.
pub open spec fn view_watermark(old_wm: Option<i64>, ts: i64) -> i64 {
    match old_wm {
        Some(t) => if t >= ts {
            t
        } else {
            ts
        },
        None => ts,
    }
}

/// What folding one stored message into the views does when a view for the
/// conversation exists: the first view carrying the conversation id gains
/// the message as its preview, its watermark rises to the monotonic max, a
/// loaded history gets the message appended and scrolls to the bottom, and
/// the list stays a permutation with exactly that one record updated.
pub open spec fn appended_to_views(
    pre: Seq<ConversationView>,
    post: Seq<ConversationView>,
    cid: Seq<char>,
    m: crate::model::MessageModel,
) -> bool {
    exists|j0: int, j: int|
        {
            &&& 0 <= j0 < pre.len()
            &&& (#[trigger] pre[j0]).conversation.id@ == cid
            &&& (forall|k: int| 0 <= k < j0 ==> (#[trigger] pre[k]).conversation.id@ != cid)
            &&& 0 <= j < post.len()
            &&& (#[trigger] post[j]).conversation@ == (crate::model::ConversationModel {
                last_message_timestamp: Some(
                    view_watermark(pre[j0].conversation@.last_message_timestamp, m.timestamp),
                ),
                ..pre[j0].conversation@
            })
            &&& opt_msg_view(post[j].last_message_preview) == Some(m)
            &&& (pre[j0].messages is Some ==> post[j].messages is Some && loaded_msgs(post[j])
                == loaded_msgs(pre[j0]).push(m) && post[j].scroll_offset == 0)
            &&& views_convs(post).to_multiset() == views_convs(pre).to_multiset().remove(
                pre[j0].conversation@,
            ).insert(post[j].conversation@)
        }
}

/// The conversation records of a list with one view pushed.
proof fn lemma_views_convs_push(s: Seq<ConversationView>, v: ConversationView)
    ensures
        views_convs(s.push(v)) =~= views_convs(s).push(v.conversation@),
{
}

/// The conversation records of a list with one view removed.
proof fn lemma_views_convs_remove(s: Seq<ConversationView>, i: int)
    requires
        0 <= i < s.len(),
    ensures
        views_convs(s.remove(i)) =~= views_convs(s).remove(i),
{
    s.remove_ensures(i);
    views_convs(s).remove_ensures(i);
}

impl App {
    /// Every held view and editor is well formed.
    pub open spec fn wf(&self) -> bool {
        &&& forall|i: int|
            0 <= i < self.conversations@.len() ==> (#[trigger] self.conversations@[i]).wf()
        &&& self.input.wf()
        &&& self.filter_input.wf()
        &&& self.file_browser.wf()
    }

    /// A fresh engine for the given account, with nothing loaded.
    pub fn new(my_number: Option<String>) -> (r: App)
        ensures
            r.wf(),
            opt_view(r.my_number) == opt_view(my_number),
            r.my_uuid is None,
            r.conversations@.len() == 0,
            r.selected == 0,
            r.focus == Focus::Conversations,
            !r.should_quit,
            r.pending_send is None,
            r.pending_clipboard is None,
            r.pending_remote_deletes@.len() == 0,
            r.pending_preload_paths@.len() == 0,
            r.pending_attachments@.len() == 0,
            !r.needs_image_preload,
            !r.show_empty_conversations,
            r.messages_height == 20,
    {
        App {
            my_uuid: None,
            my_number,
            conversations: Vec::new(),
            selected: 0,
            focus: Focus::Conversations,
            input: InputState::default(),
            filter_input: InputState::default(),
            file_browser: FileBrowserState::default(),
            pending_attachments: Vec::new(),
            should_quit: false,
            status_message: None,
            pending_send: None,
            pending_remote_deletes: Vec::new(),
            pending_clipboard: None,
            messages_height: 20,
            needs_image_preload: false,
            pending_preload_paths: Vec::new(),
            show_empty_conversations: false,
        }
    }

    /// The selected conversation, when the index is in range.
    pub fn selected_conversation(&self) -> (r: Option<&ConversationView>)
        ensures
            self.selected < self.conversations@.len() ==> (r matches Some(c) && *c
                == self.conversations@[self.selected as int]),
            self.selected >= self.conversations@.len() ==> r is None,
    {
        if self.selected < self.conversations.len() {
            Some(&self.conversations[self.selected])
        } else {
            None
        }
    }

    /// Rebuilds the conversation list from the store, newest first, and
    /// selects and loads the first conversation that holds messages.
    #[verifier::loop_isolation(false)]
    pub fn load_conversations<S: StorageRepository>(&mut self, store: &S)
        requires
            store_inv(store.store()),
            old(self).wf(),
        ensures
            final(self).wf(),
            ({
                ||| *final(self) == *old(self)
                ||| (rebuilt_views(final(self).conversations@, store.store()) && forall|i: int|
                    0 <= i < final(self).conversations@.len() && i != final(self).selected ==> (
                    #[trigger] final(self).conversations@[i]).messages is None)
            }),
    {
        broadcast use vstd::seq_lib::group_to_multiset_ensures;

        match store.list_conversations() {
            Ok(convs) => {
                let mut views: Vec<ConversationView> = Vec::new();
                let mut i: usize = 0;
                while i < convs.len()
                    invariant
                        i <= convs@.len(),
                        store_inv(store.store()),
                        views@.len() == i,
                        forall|k: int| 0 <= k < views@.len() ==> (#[trigger] views@[k]).wf(),
                        forall|k: int|
                            0 <= k < views@.len() ==> (#[trigger] views@[k]).conversation@
                                == convs@[k]@ && views@[k].selection is None
                                && views@[k].visible_range is None && views@[k].messages is None,
                    decreases convs@.len() - i,
                {
                    let v = ConversationView::new(convs[i].duplicate(), store);
                    views.push(v);
                    i = i + 1;
                }
                proof {
                    assert(views_convs(views@) =~= crate::model::convs_view(convs@));
                }
                self.conversations = views;
                proof {
                    assert forall|a: int, b: int|
                        0 <= a < b < self.conversations@.len() implies watermark_key(
                        #[trigger] self.conversations@[a].conversation@,
                    ) >= watermark_key(#[trigger] self.conversations@[b].conversation@) by {
                        assert(self.conversations@[a].conversation@ == crate::model::convs_view(
                            convs@,
                        )[a]);
                        assert(self.conversations@[b].conversation@ == crate::model::convs_view(
                            convs@,
                        )[b]);
                    }
                    assert(views_sorted_desc(self.conversations@));
                }
                // Select the first conversation with any history and page it
                // in.
                let mut j: usize = 0;
                let mut found: Option<usize> = None;
                while j < self.conversations.len()
                    invariant
                        j <= self.conversations@.len(),
                        match found {
                            Some(f) => f < self.conversations@.len(),
                            None => true,
                        },
                        forall|k: int|
                            0 <= k < self.conversations@.len() ==> (
                            #[trigger] self.conversations@[k]).wf(),
                    decreases self.conversations@.len() - j,
                {
                    if found.is_none()
                        && self.conversations[j].conversation.last_message_timestamp.is_some() {
                        found = Some(j);
                    }
                    j = j + 1;
                }
                if let Some(idx) = found {
                    self.selected = idx;
                    proof {
                        assert(self.conversations@[idx as int].wf());
                    }
                    let ghost before_sel = self.conversations@;
                    let loaded = self.conversations[idx].load_messages(store);
                    proof {
                        assert forall|k: int|
                            0 <= k < self.conversations@.len() implies (
                        #[trigger] self.conversations@[k]).conversation@
                            == before_sel[k].conversation@ && self.conversations@[k].selection
                            == before_sel[k].selection && self.conversations@[k].visible_range
                            == before_sel[k].visible_range && (k != idx ==> self.conversations@[k]
                            == before_sel[k]) by {}
                        assert(views_convs(self.conversations@) =~= views_convs(before_sel));
                        assert forall|a: int, b: int|
                            0 <= a < b < self.conversations@.len() implies watermark_key(
                            #[trigger] self.conversations@[a].conversation@,
                        ) >= watermark_key(#[trigger] self.conversations@[b].conversation@) by {
                            assert(before_sel[a].conversation@ == views_convs(before_sel)[a]);
                            assert(before_sel[b].conversation@ == views_convs(before_sel)[b]);
                            assert(watermark_key(before_sel[a].conversation@) >= watermark_key(
                                before_sel[b].conversation@,
                            ));
                        }
                    }
                    if loaded {
                        self.needs_image_preload = true;
                    }
                }
            },
            Err(_) => {},
        }
    }

    /// Hands out the paths queued for image preloading, including the
    /// selected conversation's images (newest message first) when a fresh
    /// load asked for them.
    pub fn take_preload_paths(&mut self) -> (r: Vec<String>)
        requires
            old(self).wf(),
        ensures
            final(self).wf(),
            final(self).pending_preload_paths@.len() == 0,
            !final(self).needs_image_preload,
            final(self).conversations == old(self).conversations,
            crate::view::strs_view(r@) == crate::view::strs_view(
                old(self).pending_preload_paths@,
            ) + (if old(self).needs_image_preload && old(self).selected < old(
                self,
            ).conversations@.len() {
                match old(self).conversations@[old(self).selected as int].messages {
                    Some(m) => crate::view::image_paths_rev(msgs_view(m@)),
                    None => Seq::<Seq<char>>::empty(),
                }
            } else {
                Seq::<Seq<char>>::empty()
            }),
    {
        let mut paths: Vec<String> = Vec::new();
        core::mem::swap(&mut paths, &mut self.pending_preload_paths);
        let ghost queued = paths@;
        if self.needs_image_preload {
            self.needs_image_preload = false;
            if self.selected < self.conversations.len() {
                let mut extra = self.conversations[self.selected].collect_image_paths();
                let ghost extra_seq = extra@;
                paths.append(&mut extra);
                proof {
                    assert(crate::view::strs_view(paths@) =~= crate::view::strs_view(queued)
                        + crate::view::strs_view(extra_seq));
                }
                return paths;
            }
        }
        proof {
            assert(crate::view::strs_view(paths@) =~= crate::view::strs_view(paths@)
                + Seq::<Seq<char>>::empty());
        }
        paths
    }

    /// Scrolls the timeline up a fixed step and immediately pre-fetches one
    /// page of older history when more exists, queueing its image paths for
    /// the preloader. (The offset is clamped against the content on the next
    /// layout pass.)
    #[verifier::loop_isolation(false)]
    pub fn scroll_messages_up<S: StorageRepository>(&mut self, store: &S)
        requires
            store_inv(store.store()),
            old(self).wf(),
        ensures
            final(self).wf(),
            scroll_up_post(*old(self), *final(self), store.store()),
    {
        if self.selected < self.conversations.len() {
            proof {
                assert(self.conversations@[self.selected as int].wf());
            }
            let ghost pending_pre = self.pending_preload_paths@;
            let conv = &mut self.conversations[self.selected];
            let so = conv.scroll_offset;
            conv.scroll_offset = if so <= usize::MAX - crate::layout::SCROLL_LINES {
                so + crate::layout::SCROLL_LINES
            } else {
                usize::MAX
            };
            let ghost bumped = *conv;
            if conv.has_more_messages {
                let mut paths = conv.load_older_messages(store);
                let ghost path_views = crate::view::strs_view(paths@);
                self.pending_preload_paths.append(&mut paths);
                proof {
                    assert(crate::view::strs_view(self.pending_preload_paths@)
                        =~= crate::view::strs_view(pending_pre) + path_views);
                }
            } else {
                proof {
                    assert(crate::view::load_older_post(
                        bumped,
                        *conv,
                        store.store(),
                        Seq::<Seq<char>>::empty(),
                    ));
                    assert(crate::view::strs_view(self.pending_preload_paths@)
                        =~= crate::view::strs_view(pending_pre) + Seq::<Seq<char>>::empty());
                }
            }
        }
    }

    /// Scrolls the timeline down a fixed step, stopping at the bottom;
    /// nothing else changes and no store call is made.
    pub fn scroll_messages_down(&mut self)
        requires
            old(self).wf(),
        ensures
            final(self).wf(),
            scroll_down_post(*old(self), *final(self)),
    {
        if self.selected < self.conversations.len() {
            let conv = &mut self.conversations[self.selected];
            let so = conv.scroll_offset;
            conv.scroll_offset = if so >= crate::layout::SCROLL_LINES {
                so - crate::layout::SCROLL_LINES
            } else {
                0
            };
        }
    }

    /// Rotates keyboard focus between the panes and drops any filter text.
    pub fn cycle_focus(&mut self)
        requires
            old(self).wf(),
        ensures
            final(self).wf(),
            cycle_focus_post(*old(self), *final(self)),
    {
        self.focus = match self.focus {
            Focus::Conversations | Focus::ConversationFilter => Focus::Messages,
            Focus::Messages => Focus::Input,
            Focus::Input | Focus::FileBrowser => Focus::Messages,
        };
        let _ = self.filter_input.clear();
    }

    /// Puts the keyboard in the composer.
    pub fn focus_input(&mut self)
        ensures
            *final(self) == (App { focus: Focus::Input, ..*old(self) }),
    {
        self.focus = Focus::Input;
    }

    /// Queues composed text for sending when something is there to send and
    /// a conversation is selected.
    pub fn queue_send_message(&mut self, text: String)
        ensures
            ((text@.len() > 0 || old(self).pending_attachments@.len() > 0) && old(self).selected
                < old(self).conversations@.len()) ==> *final(self) == (App {
                pending_send: Some(text),
                ..*old(self)
            }),
            !((text@.len() > 0 || old(self).pending_attachments@.len() > 0) && old(self).selected
                < old(self).conversations@.len()) ==> *final(self) == *old(self),
    {
        if (text.as_str().unicode_len() > 0 || self.pending_attachments.len() > 0)
            && self.selected < self.conversations.len() {
            self.pending_send = Some(text);
        }
    }

    /// Where a send from the selected conversation is addressed: the peer
    /// (uuid, else number) for a direct conversation, the group id for a
    /// group.
    pub fn get_send_target(&self) -> (r: Option<SendTarget>)
        ensures
            self.selected >= self.conversations@.len() ==> r is None,
            self.selected < self.conversations@.len() ==> {
                let c = self.conversations@[self.selected as int].conversation@;
                match c.conversation_type {
                    ConversationType::Direct => match (c.recipient_uuid, c.recipient_number) {
                        (Some(u), _) => r matches Some(SendTarget::Direct(s)) && s@ == u,
                        (None, Some(n)) => r matches Some(SendTarget::Direct(s)) && s@ == n,
                        (None, None) => r is None,
                    },
                    ConversationType::Group => match c.group_id {
                        Some(g) => r matches Some(SendTarget::Group(s)) && s@ == g,
                        None => r is None,
                    },
                }
            },
    {
        if self.selected >= self.conversations.len() {
            return None;
        }
        let conv = &self.conversations[self.selected].conversation;
        match conv.conversation_type {
            ConversationType::Direct => match &conv.recipient_uuid {
                Some(u) => Some(SendTarget::Direct(u.clone())),
                None => match &conv.recipient_number {
                    Some(n) => Some(SendTarget::Direct(n.clone())),
                    None => None,
                },
            },
            ConversationType::Group => match &conv.group_id {
                Some(g) => Some(SendTarget::Group(g.clone())),
                None => None,
            },
        }
    }
}

/// Whether a sent/echoed payload is empty: no text and no attachments.
pub open spec fn sent_content_empty(text: Option<Seq<char>>, n_atts: int) -> bool {
    (match text {
        Some(t) => t.len() == 0,
        None => true,
    }) && n_atts == 0
}

/// The signal id an own-device echo reconciles against, when the event
/// determines one: the envelope's sender with the sent message's timestamp
/// (falling back to the envelope timestamp). Edits, empty payloads and
/// events with no usable timestamp yield none.
pub open spec fn echo_key(e: Envelope) -> Option<(Seq<char>, i64)> {
    match (e.source_uuid, e.sync_message) {
        (Some(src), Some(sm)) => match sm.sent_message {
            Some(sent) => {
                if sent.edit_message is Some {
                    None
                } else if sent_content_empty(opt_view(sent.message), sent.attachments@.len() as int) {
                    None
                } else {
                    match (sent.timestamp, e.timestamp) {
                        (Some(t), _) => Some((src@, t)),
                        (None, Some(t)) => Some((src@, t)),
                        (None, None) => None,
                    }
                }
            },
            None => None,
        },
        _ => None,
    }
}

/// The text an inbound payload carries, empty when none came.
pub open spec fn payload_text(text: Option<String>) -> Seq<char> {
    match text {
        Some(t) => t@,
        None => Seq::empty(),
    }
}

/// Whether an inbound payload is empty: no text and no attachments.
pub open spec fn payload_empty(d: DataMessage) -> bool {
    payload_text(d.message).len() == 0 && d.attachments@.len() == 0
}

/// The stored attachment record built from an inbound one: the attachment id
/// doubles as the local path the daemon stores it under.
pub open spec fn incoming_att(a: Attachment) -> crate::model::AttachmentModel {
    crate::model::AttachmentModel {
        id: opt_view(a.id),
        content_type: opt_view(a.content_type),
        filename: opt_view(a.filename),
        size: match a.size {
            Some(n) => Some(n as u64),
            None => None,
        },
        local_path: opt_view(a.id),
    }
}

/// The stored content built from an inbound payload: the attachment list
/// when any attachments came, else the text body.
pub open spec fn incoming_content(text: Seq<char>, atts: Seq<Attachment>) -> crate::model::ContentModel {
    if atts.len() > 0 {
        crate::model::ContentModel::Attachment {
            attachments: atts.map_values(|a: Attachment| incoming_att(a)),
        }
    } else {
        crate::model::ContentModel::Text { body: text }
    }
}

/// What reconciling a message payload does, unless the store could not
/// resolve its conversation: some message carrying the event's sender,
/// timestamp, direction and classified content lands in the views (appended
/// to the matching view, or through a full list reload for a new
/// conversation) and, best effort, in the store; the signal id's stored
/// count grows by at most one.
pub open spec fn data_ingest_post(
    pre_self: App,
    post_self: App,
    pre_store: crate::store::StoreModel,
    post_store: crate::store::StoreModel,
    sender: Seq<char>,
    ts: i64,
    text: Seq<char>,
    atts: Seq<Attachment>,
    outgoing: bool,
) -> bool {
    ||| (post_self == pre_self && post_store.msgs == pre_store.msgs)
    ||| (exists|mm: crate::model::MessageModel|
        {
            &&& #[trigger] mm.sender_uuid == sender
            &&& mm.timestamp == ts
            &&& mm.is_outgoing == outgoing
            &&& mm.is_read == outgoing
            &&& !mm.is_deleted
            &&& !mm.is_edited
            &&& mm.content == incoming_content(text, atts)
            &&& count_signal_id(post_store.msgs, sender, ts) <= count_signal_id(
                pre_store.msgs,
                sender,
                ts,
            ) + 1
            &&& (post_store.msgs == pre_store.msgs || post_store.msgs.contains(mm))
            &&& ({
                ||| post_self.conversations@ == pre_self.conversations@
                ||| rebuilt_views(post_self.conversations@, post_store)
                ||| (views_sorted_desc(post_self.conversations@) && exists|cid: Seq<char>|
                    appended_to_views(
                        pre_self.conversations@,
                        post_self.conversations@,
                        cid,
                        mm,
                    ))
            })
        })
}

/// What one upward scroll step does: the selected view's offset rises by
/// the fixed step, and when more history exists one older page is fetched
/// at once, its image paths queued for the preloader. Nothing else changes.
pub open spec fn scroll_up_post(pre: App, post: App, store: crate::store::StoreModel) -> bool {
    &&& (pre.selected >= pre.conversations@.len() ==> post == pre)
    &&& (pre.selected < pre.conversations@.len() ==> {
        let sel = pre.selected as int;
        let bumped = ConversationView {
            scroll_offset: crate::layout::sat_usize(
                pre.conversations@[sel].scroll_offset + crate::layout::SCROLL_LINES,
            ) as usize,
            ..pre.conversations@[sel]
        };
        &&& post == (App {
            conversations: post.conversations,
            pending_preload_paths: post.pending_preload_paths,
            ..pre
        })
        &&& post.conversations@.len() == pre.conversations@.len()
        &&& (forall|w: int|
            0 <= w < pre.conversations@.len() && w != sel ==> #[trigger] post.conversations@[w]
                == pre.conversations@[w])
        &&& exists|paths: Seq<Seq<char>>|
            #[trigger] crate::view::load_older_post(bumped, post.conversations@[sel], store, paths)
                && crate::view::strs_view(post.pending_preload_paths@) == crate::view::strs_view(
                pre.pending_preload_paths@,
            ) + paths
    })
}

/// What one downward scroll step does: the selected view's offset drops by
/// the fixed step, stopping at the bottom; nothing else changes.
pub open spec fn scroll_down_post(pre: App, post: App) -> bool {
    &&& (pre.selected >= pre.conversations@.len() ==> post == pre)
    &&& (pre.selected < pre.conversations@.len() ==> post == (App {
        conversations: post.conversations,
        ..pre
    }) && post.conversations@ == pre.conversations@.update(
        pre.selected as int,
        (ConversationView {
            scroll_offset: (if pre.conversations@[pre.selected as int].scroll_offset
                >= crate::layout::SCROLL_LINES {
                pre.conversations@[pre.selected as int].scroll_offset
                    - crate::layout::SCROLL_LINES
            } else {
                0int
            }) as usize,
            ..pre.conversations@[pre.selected as int]
        }),
    ))
}

/// What moving the list selection does: when the filter shows anything the
/// selection lands on a shown conversation, at most that conversation's view
/// pages its history in, and nothing else changes.
pub open spec fn select_moved_post(pre: App, post: App) -> bool {
    &&& ((exists|i: int| 0 <= i < pre.conversations@.len() && pre.passes_filter(i))
        ==> post.selected < post.conversations@.len() && post.passes_filter(post.selected as int))
    &&& post.conversations@.len() == pre.conversations@.len()
    &&& (forall|w: int|
        0 <= w < pre.conversations@.len() && w != post.selected ==> #[trigger] post.conversations@[w]
            == pre.conversations@[w])
    &&& post == (App {
        conversations: post.conversations,
        selected: post.selected,
        needs_image_preload: post.needs_image_preload,
        ..pre
    })
}

/// No conversation strictly between `lo` and `hi` passes the filter of
/// `pre`.
pub open spec fn no_passing_between(pre: App, lo: int, hi: int) -> bool {
    forall|k: int| lo < k < hi ==> !pre.passes_filter(k)
}

/// `ns` is the first conversation the filter shows.
pub open spec fn first_passing(pre: App, ns: int) -> bool {
    pre.passes_filter(ns) && forall|k: int| 0 <= k < ns ==> !pre.passes_filter(k)
}

/// `ns` is the last conversation the filter shows.
pub open spec fn last_passing(pre: App, ns: int) -> bool {
    pre.passes_filter(ns) && no_passing_between(pre, ns, pre.conversations@.len() as int)
}

/// What rotating the keyboard focus does: the focus steps to the next pane
/// and the filter text is dropped; nothing else changes.
pub open spec fn cycle_focus_post(pre: App, post: App) -> bool {
    &&& post == (App { focus: post.focus, filter_input: post.filter_input, ..pre })
    &&& post.focus == (match pre.focus {
        Focus::Conversations | Focus::ConversationFilter => Focus::Messages,
        Focus::Messages => Focus::Input,
        Focus::Input | Focus::FileBrowser => Focus::Messages,
    })
    &&& post.filter_input.text@.len() == 0
    &&& post.filter_input.cursor == 0
}

/// The replacement text an edit event carries, when it carries one.
pub open spec fn edit_new_text(e: EditMessage) -> Option<Seq<char>> {
    match e.data_message {
        Some(d) => match d.message {
            Some(t) => if t@.len() > 0 {
                Some(t@)
            } else {
                None
            },
            None => None,
        },
        None => None,
    }
}

/// Whether a sequence of timestamps holds `v`.
#[verifier::loop_isolation(false)]
fn contains_i64(s: &Vec<i64>, v: i64) -> (r: bool)
    ensures
        r == s@.contains(v),
{
    let mut i: usize = 0;
    while i < s.len()
        invariant
            i <= s@.len(),
            forall|k: int| 0 <= k < i ==> s@[k] != v,
        decreases s@.len() - i,
    {
        if s[i] == v {
            proof {
                assert(s@[i as int] == v);
            }
            return true;
        }
        i = i + 1;
    }
    false
}

/// A copy of the views sorted newest watermark first (selection of the
/// largest remaining key, so the list is a permutation of the input).
#[verifier::loop_isolation(false)]
fn sort_views_desc(views: Vec<ConversationView>) -> (r: Vec<ConversationView>)
    ensures
        views_sorted_desc(r@),
        r@.to_multiset() == views@.to_multiset(),
        views_convs(r@).to_multiset() == views_convs(views@).to_multiset(),
        (forall|i: int| 0 <= i < views@.len() ==> (#[trigger] views@[i]).wf()) ==> forall|i: int|
            0 <= i < r@.len() ==> (#[trigger] r@[i]).wf(),
{
    broadcast use vstd::seq_lib::group_to_multiset_ensures;

    let mut rest = views;
    let ghost orig = rest@;
    let mut out: Vec<ConversationView> = Vec::new();
    while rest.len() > 0
        invariant
            views_sorted_desc(out@),
            forall|a: int, b: int|
                0 <= a < out@.len() && 0 <= b < rest@.len() ==> watermark_key(
                    #[trigger] out@[a].conversation@,
                ) >= watermark_key(#[trigger] rest@[b].conversation@),
            out@.to_multiset().add(rest@.to_multiset()) == orig.to_multiset(),
            views_convs(out@).to_multiset().add(views_convs(rest@).to_multiset()) == views_convs(
                orig,
            ).to_multiset(),
            (forall|i: int| 0 <= i < orig.len() ==> (#[trigger] orig[i]).wf()) ==> (forall|i: int|
                0 <= i < out@.len() ==> (#[trigger] out@[i]).wf()) && (forall|i: int|
                0 <= i < rest@.len() ==> (#[trigger] rest@[i]).wf()),
        decreases rest@.len(),
    {
        let mut best: usize = 0;
        let mut k: usize = 1;
        while k < rest.len()
            invariant
                best < rest@.len(),
                k <= rest@.len(),
                forall|t: int|
                    0 <= t < k ==> watermark_key(rest@[best as int].conversation@) >= watermark_key(
                        #[trigger] rest@[t].conversation@,
                    ),
            decreases rest@.len() - k,
        {
            if !crate::store::watermark_ge(&rest[best].conversation, &rest[k].conversation) {
                best = k;
            }
            k = k + 1;
        }
        let ghost rest_before = rest@;
        let ghost out_before = out@;
        let picked = rest.remove(best);
        proof {
            rest_before.remove_ensures(best as int);
            assert(rest_before[best as int] == picked);
            assert(rest_before.contains(picked));
            lemma_views_convs_remove(rest_before, best as int);
            assert(views_convs(rest_before)[best as int] == picked.conversation@);
            assert(views_convs(rest_before).contains(picked.conversation@));
            lemma_views_convs_push(out@, picked);
        }
        out.push(picked);
        proof {
            let ov = out@;
            let rv = rest@;
            assert(ov =~= out_before.push(picked));
            assert forall|a: int, b: int|
                0 <= a < b < ov.len() implies watermark_key(#[trigger] ov[a].conversation@)
                >= watermark_key(#[trigger] ov[b].conversation@) by {
                if b == ov.len() - 1 {
                    assert(ov[b] == picked);
                    assert(ov[a] == out_before[a]);
                    assert(watermark_key(out_before[a].conversation@) >= watermark_key(
                        rest_before[best as int].conversation@,
                    ));
                } else {
                    assert(ov[a] == out_before[a]);
                    assert(ov[b] == out_before[b]);
                    assert(watermark_key(out_before[a].conversation@) >= watermark_key(
                        out_before[b].conversation@,
                    ));
                }
            }
            assert forall|a: int, b: int|
                0 <= a < ov.len() && 0 <= b < rv.len() implies watermark_key(
                #[trigger] ov[a].conversation@,
            ) >= watermark_key(#[trigger] rv[b].conversation@) by {
                let bb = if b < best as int {
                    b
                } else {
                    b + 1
                };
                assert(rv[b] == rest_before[bb]);
                assert(watermark_key(rest_before[best as int].conversation@) >= watermark_key(
                    rest_before[bb].conversation@,
                ));
                if a < ov.len() - 1 {
                    assert(ov[a] == out_before[a]);
                    assert(watermark_key(out_before[a].conversation@) >= watermark_key(
                        rest_before[best as int].conversation@,
                    ));
                } else {
                    assert(ov[a] == picked);
                    assert(picked.conversation@ == rest_before[best as int].conversation@);
                }
            }
            let mo = out_before.to_multiset();
            let mr = rest_before.to_multiset();
            assert(mr.count(picked) >= 1);
            assert(ov.to_multiset() =~= mo.insert(picked));
            assert(rv.to_multiset() =~= mr.remove(picked));
            assert(mo.insert(picked).add(mr.remove(picked)) =~= mo.add(mr));
            let cmo = views_convs(out_before).to_multiset();
            let cmr = views_convs(rest_before).to_multiset();
            assert(cmr.count(picked.conversation@) >= 1);
            assert(views_convs(out@) =~= views_convs(out_before).push(picked.conversation@));
            assert(views_convs(rest@) =~= views_convs(rest_before).remove(best as int));
            assert(views_convs(out@).to_multiset() =~= cmo.insert(picked.conversation@));
            assert(views_convs(rest@).to_multiset() =~= cmr.remove(picked.conversation@));
            assert(cmo.insert(picked.conversation@).add(cmr.remove(picked.conversation@))
                =~= cmo.add(cmr));
            assert forall|i: int|
                (forall|t: int| 0 <= t < orig.len() ==> (#[trigger] orig[t]).wf()) && 0 <= i
                    < rv.len() implies (#[trigger] rv[i]).wf() by {
                let bb = if i < best as int {
                    i
                } else {
                    i + 1
                };
                assert(rv[i] == rest_before[bb]);
            }
        }
    }
    proof {
        assert(rest@.to_multiset() =~= vstd::multiset::Multiset::<ConversationView>::empty());
        assert(out@.to_multiset().add(vstd::multiset::Multiset::<ConversationView>::empty())
            =~= out@.to_multiset());
        assert(views_convs(rest@) =~= Seq::<crate::model::ConversationModel>::empty());
        assert(views_convs(rest@).to_multiset() =~= vstd::multiset::Multiset::<
            crate::model::ConversationModel,
        >::empty());
        assert(views_convs(out@).to_multiset().add(
            vstd::multiset::Multiset::<crate::model::ConversationModel>::empty(),
        ) =~= views_convs(out@).to_multiset());
    }
    out
}

impl App {
    /// Re-sorts the conversation list by watermark, newest first, following
    /// the selected conversation by identity rather than by index.
    #[verifier::loop_isolation(false)]
    fn sort_conversations(&mut self)
        requires
            old(self).wf(),
        ensures
            final(self).wf(),
            views_sorted_desc(final(self).conversations@),
            final(self).conversations@.to_multiset() == old(self).conversations@.to_multiset(),
            views_convs(final(self).conversations@).to_multiset() == views_convs(
                old(self).conversations@,
            ).to_multiset(),
            old(self).selected < old(self).conversations@.len()
                ==> final(self).selected < final(self).conversations@.len()
                && final(self).conversations@[final(self).selected as int].conversation.id@
                == old(self).conversations@[old(self).selected as int].conversation.id@,
            *final(self) == (App {
                conversations: final(self).conversations,
                selected: final(self).selected,
                ..*old(self)
            }),
    {
        broadcast use vstd::seq_lib::group_to_multiset_ensures;

        let selected_id: Option<String> = if self.selected < self.conversations.len() {
            Some(self.conversations[self.selected].conversation.id.clone())
        } else {
            None
        };
        let mut views: Vec<ConversationView> = Vec::new();
        core::mem::swap(&mut views, &mut self.conversations);
        proof {
            assert(forall|i: int| 0 <= i < views@.len() ==> (#[trigger] views@[i]).wf());
        }
        let sorted = sort_views_desc(views);
        self.conversations = sorted;
        let ghost snap = *self;
        if let Some(id) = selected_id {
            proof {
                let sel_view = old(self).conversations@[old(self).selected as int];
                assert(old(self).conversations@.contains(sel_view));
                assert(self.conversations@.to_multiset().count(sel_view) >= 1);
                assert(self.conversations@.contains(sel_view));
            }
            let mut j: usize = 0;
            while j < self.conversations.len()
                invariant
                    j <= self.conversations@.len(),
                    *self == (App { selected: self.selected, ..snap }),
                    forall|k: int|
                        0 <= k < j ==> (#[trigger] self.conversations@[k]).conversation.id@ != id@,
                decreases self.conversations@.len() - j,
            {
                if str_eq(self.conversations[j].conversation.id.as_str(), id.as_str()) {
                    self.selected = j;
                    return ;
                }
                j = j + 1;
            }
            proof {
                let sel_view = old(self).conversations@[old(self).selected as int];
                let w = choose|w: int|
                    0 <= w < self.conversations@.len() && self.conversations@[w] == sel_view;
                assert(self.conversations@[w].conversation.id@ == id@);
                assert(false);
            }
        }
    }

    /// Folds one freshly stored message into the matching view: loads the
    /// view if needed, appends, raises the watermark to the monotonic max
    /// and re-sorts, the selection following its conversation; with no
    /// matching view the whole list is reloaded (a new conversation).
    #[verifier::loop_isolation(false)]
    pub fn add_message_to_conversation<S: StorageRepository>(
        &mut self,
        store: &S,
        conversation_id: &str,
        message: Message,
    )
        requires
            store_inv(store.store()),
            old(self).wf(),
        ensures
            final(self).wf(),
            (exists|j: int|
                0 <= j < old(self).conversations@.len()
                    && (#[trigger] old(self).conversations@[j]).conversation.id@
                    == conversation_id@) ==> views_sorted_desc(final(self).conversations@)
                && appended_to_views(
                old(self).conversations@,
                final(self).conversations@,
                conversation_id@,
                message@,
            ) && (old(self).selected < old(self).conversations@.len()
                ==> final(self).selected < final(self).conversations@.len()
                && final(self).conversations@[final(self).selected as int].conversation.id@
                == old(self).conversations@[old(self).selected as int].conversation.id@),
            (forall|k: int|
                0 <= k < old(self).conversations@.len() ==> (#[trigger] old(
                    self,
                ).conversations@[k]).conversation.id@ != conversation_id@) ==> (*final(self)
                == *old(self) || rebuilt_views(final(self).conversations@, store.store())),
    {
        broadcast use vstd::seq_lib::group_to_multiset_ensures;

        let mut idx: usize = 0;
        let mut found: Option<usize> = None;
        while idx < self.conversations.len()
            invariant
                idx <= self.conversations@.len(),
                self == old(self),
                match found {
                    Some(f) => f < self.conversations@.len()
                        && self.conversations@[f as int].conversation.id@ == conversation_id@
                        && (forall|k: int|
                        0 <= k < f ==> (#[trigger] self.conversations@[k]).conversation.id@
                            != conversation_id@),
                    None => forall|k: int|
                        0 <= k < idx ==> (#[trigger] self.conversations@[k]).conversation.id@
                            != conversation_id@,
                },
            decreases self.conversations@.len() - idx,
        {
            if found.is_none() && str_eq(
                self.conversations[idx].conversation.id.as_str(),
                conversation_id,
            ) {
                found = Some(idx);
            }
            idx = idx + 1;
        }
        match found {
            Some(f) => {
                let ts = message.timestamp;
                let ghost mm = message@;
                proof {
                    assert(self.conversations@[f as int].wf());
                }
                let conv = &mut self.conversations[f];
                let ghost pre_view = *conv;
                if conv.messages.is_none() {
                    let _ = conv.load_messages(store);
                }
                conv.add_message(message);
                let new_wm: i64 = match conv.conversation.last_message_timestamp {
                    Some(t) => if t >= ts {
                        t
                    } else {
                        ts
                    },
                    None => ts,
                };
                conv.conversation.last_message_timestamp = Some(new_wm);
                proof {
                    assert(conv.conversation@ =~= (crate::model::ConversationModel {
                        last_message_timestamp: Some(
                            view_watermark(
                                pre_view.conversation@.last_message_timestamp,
                                mm.timestamp,
                            ),
                        ),
                        ..pre_view.conversation@
                    }));
                    assert(opt_msg_view(conv.last_message_preview) == Some(mm));
                    if pre_view.messages is Some {
                        assert(loaded_msgs(*conv) == loaded_msgs(pre_view).push(mm));
                    }
                }
                let ghost updated = self.conversations@[f as int];
                let ghost pre_sort = self.conversations@;
                proof {
                    assert(pre_sort == old(self).conversations@.update(f as int, updated));
                    assert(self.conversations@.contains(updated));
                    assert(self.conversations@.to_multiset().count(updated) >= 1);
                    assert(views_convs(pre_sort) =~= views_convs(
                        old(self).conversations@,
                    ).update(f as int, updated.conversation@));
                    assert(views_convs(pre_sort).to_multiset() =~= views_convs(
                        old(self).conversations@,
                    ).to_multiset().remove(old(self).conversations@[f as int].conversation@).insert(
                        updated.conversation@,
                    ));
                }
                self.sort_conversations();
                proof {
                    assert(self.conversations@.to_multiset().count(updated) >= 1);
                    assert(self.conversations@.contains(updated));
                    let j = choose|j: int|
                        0 <= j < self.conversations@.len() && self.conversations@[j] == updated;
                    assert(self.conversations@[j].conversation.id@ == conversation_id@);
                    assert(appended_to_views(
                        old(self).conversations@,
                        self.conversations@,
                        conversation_id@,
                        mm,
                    )) by {
                        assert(self.conversations@[j].conversation@ == updated.conversation@);
                    }
                }
            },
            None => {
                self.load_conversations(store);
                proof {
                    assert(forall|k: int|
                        0 <= k < old(self).conversations@.len() ==> (#[trigger] old(
                            self,
                        ).conversations@[k]).conversation.id@ != conversation_id@);
                }
            },
        }
    }

    /// Whether the conversation at `i` passes the current filter text: an
    /// empty filter shows every conversation with history (or all of them
    /// when empty ones are shown); otherwise the lowercased filter must
    /// occur in the display name, the number, the uuid, or "note to self"
    /// for the account's own thread.
    pub open spec fn passes_filter(&self, i: int) -> bool {
        let c = self.conversations@[i].conversation@;
        let filter = lower_of(self.filter_input.text@);
        if filter.len() == 0 {
            self.show_empty_conversations || c.last_message_timestamp is Some
        } else {
            let note = (self.my_number is Some && c.recipient_number == opt_view(self.my_number))
                || (self.my_uuid is Some && c.recipient_uuid == opt_view(self.my_uuid));
            ||| (note && contains_seq("note to self"@, filter))
            ||| contains_seq(lower_of(conv_display_name(c)), filter)
            ||| (c.recipient_number matches Some(n) && contains_seq(lower_of(n), filter))
            ||| (c.recipient_uuid matches Some(u) && contains_seq(lower_of(u), filter))
        }
    }

    /// The indices of the conversations the list shows, in order.
    #[verifier::loop_isolation(false)]
    pub fn filtered_conversation_indices(&self) -> (r: Vec<usize>)
        requires
            self.wf(),
        ensures
            forall|k: int| 0 <= k < r@.len() ==> (#[trigger] r@[k]) < self.conversations@.len(),
            forall|k1: int, k2: int| 0 <= k1 < k2 < r@.len() ==> #[trigger] r@[k1] < #[trigger] r@[k2],
            forall|k: int| 0 <= k < r@.len() ==> self.passes_filter(#[trigger] r@[k] as int),
            forall|i: int|
                0 <= i < self.conversations@.len() && self.passes_filter(i) ==> r@.contains(
                    i as usize,
                ),
    {
        let filter = lowercase(self.filter_input.text.as_str());
        let filter_empty = filter.as_str().unicode_len() == 0;
        let mut out: Vec<usize> = Vec::new();
        let mut i: usize = 0;
        while i < self.conversations.len()
            invariant
                i <= self.conversations@.len(),
                filter@ == lower_of(self.filter_input.text@),
                filter_empty == (filter@.len() == 0),
                forall|k: int| 0 <= k < out@.len() ==> (#[trigger] out@[k]) < i,
                forall|k1: int, k2: int| 0 <= k1 < k2 < out@.len() ==> #[trigger] out@[k1] < #[trigger] out@[k2],
                forall|k: int| 0 <= k < out@.len() ==> self.passes_filter(#[trigger] out@[k] as int),
                forall|t: int|
                    0 <= t < i && self.passes_filter(t) ==> out@.contains(t as usize),
            decreases self.conversations@.len() - i,
        {
            let passes: bool = if filter_empty {
                self.show_empty_conversations
                    || self.conversations[i].conversation.last_message_timestamp.is_some()
            } else {
                let conv = &self.conversations[i].conversation;
                let note = (match (&self.my_number, &conv.recipient_number) {
                    (Some(a), Some(b)) => str_eq(a.as_str(), b.as_str()),
                    _ => false,
                }) || (match (&self.my_uuid, &conv.recipient_uuid) {
                    (Some(a), Some(b)) => str_eq(a.as_str(), b.as_str()),
                    _ => false,
                });
                if note && str_contains("note to self", filter.as_str()) {
                    true
                } else {
                    let name = lowercase(conv.display_name().as_str());
                    if str_contains(name.as_str(), filter.as_str()) {
                        true
                    } else {
                        let by_number = match &conv.recipient_number {
                            Some(n) => {
                                let low = lowercase(n.as_str());
                                str_contains(low.as_str(), filter.as_str())
                            },
                            None => false,
                        };
                        if by_number {
                            true
                        } else {
                            match &conv.recipient_uuid {
                                Some(u) => {
                                    let low = lowercase(u.as_str());
                                    str_contains(low.as_str(), filter.as_str())
                                },
                                None => false,
                            }
                        }
                    }
                }
            };
            proof {
                assert(passes == self.passes_filter(i as int));
            }
            if passes {
                let ghost before = out@;
                out.push(i);
                proof {
                    assert forall|t: int|
                        0 <= t < i + 1 && self.passes_filter(t) implies out@.contains(
                        t as usize,
                    ) by {
                        if t < i {
                            let w = choose|w: int| 0 <= w < before.len() && before[w] == t as usize;
                            assert(out@[w] == t as usize);
                        } else {
                            assert(out@[out@.len() - 1] == t as usize);
                        }
                    }
                }
            }
            i = i + 1;
        }
        out
    }

    /// Selects the next conversation in filtered order, wrapping at the end,
    /// and pages its history in.
    #[verifier::loop_isolation(false)]
    #[verifier::rlimit(60)]
    pub fn select_next<S: StorageRepository>(&mut self, store: &S)
        requires
            store_inv(store.store()),
            old(self).wf(),
        ensures
            final(self).wf(),
            select_moved_post(*old(self), *final(self)),
            (old(self).selected < old(self).conversations@.len() && old(self).passes_filter(
                old(self).selected as int,
            )) ==> ({
                ||| (final(self).selected > old(self).selected && old(self).passes_filter(
                    final(self).selected as int,
                ) && no_passing_between(
                    *old(self),
                    old(self).selected as int,
                    final(self).selected as int,
                ))
                ||| (no_passing_between(
                    *old(self),
                    old(self).selected as int,
                    old(self).conversations@.len() as int,
                ) && first_passing(*old(self), final(self).selected as int))
            }),
            ((old(self).selected >= old(self).conversations@.len() || !old(self).passes_filter(
                old(self).selected as int,
            )) && (exists|i: int|
                0 <= i < old(self).conversations@.len() && old(self).passes_filter(i)))
                ==> first_passing(*old(self), final(self).selected as int),
    {
        let indices = self.filtered_conversation_indices();
        if indices.len() == 0 {
            proof {
                passing_needs_index(*self, indices@);
            }
            return ;
        }
        let pos = position_of(&indices, self.selected);
        let new_pos: usize = match pos {
            Some(p) => {
                if p + 1 < indices.len() {
                    p + 1
                } else {
                    0
                }
            },
            None => 0,
        };
        let n = self.conversations.len();
        let new_idx = indices[new_pos];
        proof {
            assert(self.conversations@.len() == n);
            indices_order_facts(*self, indices@);
            if let Some(p) = pos {
                assert(indices@[p as int] == self.selected);
            }
        }
        self.selected = new_idx;
        if self.conversations[self.selected].load_messages(store) {
            self.needs_image_preload = true;
        }
    }

    /// Selects the previous conversation in filtered order, wrapping at the
    /// start, and pages its history in.
    #[verifier::loop_isolation(false)]
    #[verifier::rlimit(60)]
    pub fn select_prev<S: StorageRepository>(&mut self, store: &S)
        requires
            store_inv(store.store()),
            old(self).wf(),
        ensures
            final(self).wf(),
            select_moved_post(*old(self), *final(self)),
            (old(self).selected < old(self).conversations@.len() && old(self).passes_filter(
                old(self).selected as int,
            )) ==> ({
                ||| (final(self).selected < old(self).selected && old(self).passes_filter(
                    final(self).selected as int,
                ) && no_passing_between(
                    *old(self),
                    final(self).selected as int,
                    old(self).selected as int,
                ))
                ||| (no_passing_between(*old(self), -1, old(self).selected as int) && last_passing(
                    *old(self),
                    final(self).selected as int,
                ))
            }),
            ((old(self).selected >= old(self).conversations@.len() || !old(self).passes_filter(
                old(self).selected as int,
            )) && (exists|i: int|
                0 <= i < old(self).conversations@.len() && old(self).passes_filter(i)))
                ==> first_passing(*old(self), final(self).selected as int),
    {
        let indices = self.filtered_conversation_indices();
        if indices.len() == 0 {
            proof {
                passing_needs_index(*self, indices@);
            }
            return ;
        }
        let pos = position_of(&indices, self.selected);
        let new_pos: usize = match pos {
            Some(p) => {
                if p > 0 {
                    p - 1
                } else {
                    indices.len() - 1
                }
            },
            None => 0,
        };
        let n = self.conversations.len();
        let new_idx = indices[new_pos];
        proof {
            assert(self.conversations@.len() == n);
            indices_order_facts(*self, indices@);
            if let Some(p) = pos {
                assert(indices@[p as int] == self.selected);
            }
        }
        self.selected = new_idx;
        if self.conversations[self.selected].load_messages(store) {
            self.needs_image_preload = true;
        }
    }

    /// Moves the filtered selection one step without wrapping.
    #[verifier::loop_isolation(false)]
    #[verifier::rlimit(60)]
    pub fn select_filtered<S: StorageRepository>(&mut self, store: &S, direction: i32)
        requires
            store_inv(store.store()),
            old(self).wf(),
        ensures
            final(self).wf(),
            select_moved_post(*old(self), *final(self)),
            (old(self).selected < old(self).conversations@.len() && old(self).passes_filter(
                old(self).selected as int,
            ) && direction > 0) ==> ({
                ||| (final(self).selected > old(self).selected && old(self).passes_filter(
                    final(self).selected as int,
                ) && no_passing_between(
                    *old(self),
                    old(self).selected as int,
                    final(self).selected as int,
                ))
                ||| (no_passing_between(
                    *old(self),
                    old(self).selected as int,
                    old(self).conversations@.len() as int,
                ) && final(self).selected == old(self).selected)
            }),
            (old(self).selected < old(self).conversations@.len() && old(self).passes_filter(
                old(self).selected as int,
            ) && direction <= 0) ==> ({
                ||| (final(self).selected < old(self).selected && old(self).passes_filter(
                    final(self).selected as int,
                ) && no_passing_between(
                    *old(self),
                    final(self).selected as int,
                    old(self).selected as int,
                ))
                ||| (no_passing_between(*old(self), -1, old(self).selected as int)
                    && final(self).selected == old(self).selected)
            }),
            ((old(self).selected >= old(self).conversations@.len() || !old(self).passes_filter(
                old(self).selected as int,
            )) && (exists|i: int|
                0 <= i < old(self).conversations@.len() && old(self).passes_filter(i)))
                ==> first_passing(*old(self), final(self).selected as int),
    {
        let indices = self.filtered_conversation_indices();
        if indices.len() == 0 {
            proof {
                passing_needs_index(*self, indices@);
            }
            return ;
        }
        let pos = position_of(&indices, self.selected);
        let new_pos: usize = match pos {
            Some(p) => {
                if direction > 0 {
                    if p + 1 < indices.len() {
                        p + 1
                    } else {
                        indices.len() - 1
                    }
                } else {
                    if p > 0 {
                        p - 1
                    } else {
                        0
                    }
                }
            },
            None => 0,
        };
        let n = self.conversations.len();
        let new_idx = indices[new_pos];
        proof {
            assert(self.conversations@.len() == n);
            indices_order_facts(*self, indices@);
            if let Some(p) = pos {
                assert(indices@[p as int] == self.selected);
            }
        }
        self.selected = new_idx;
        if self.conversations[self.selected].load_messages(store) {
            self.needs_image_preload = true;
        }
    }

    /// Moves the selection onto a conversation the filter shows, when it
    /// currently points at a hidden one.
    pub fn ensure_selection_matches_filter<S: StorageRepository>(&mut self, store: &S)
        requires
            store_inv(store.store()),
            old(self).wf(),
        ensures
            final(self).wf(),
            select_moved_post(*old(self), *final(self)),
    {
        let indices = self.filtered_conversation_indices();
        if indices.len() == 0 {
            return ;
        }
        if position_of(&indices, self.selected).is_some() {
            return ;
        }
        let first = indices[0];
        self.selected = first;
        if self.conversations[self.selected].load_messages(store) {
            self.needs_image_preload = true;
        }
    }
}

/// An empty index list means no conversation passes the filter (assuming
/// the completeness the index builder ensures).
proof fn passing_needs_index(pre: App, iv: Seq<usize>)
    requires
        forall|i: int|
            0 <= i < pre.conversations@.len() && pre.passes_filter(i) ==> iv.contains(i as usize),
        iv.len() == 0,
    ensures
        forall|i: int| 0 <= i < pre.conversations@.len() ==> !pre.passes_filter(i),
{
    assert forall|i: int|
        0 <= i < pre.conversations@.len() implies !pre.passes_filter(i) by {
        if pre.passes_filter(i) {
            assert(iv.contains(i as usize));
        }
    }
}

/// Order facts the wrap arithmetic needs about a sorted, sound and complete
/// index list: the element after a position is the next passing index, the
/// first element is the least passing index, the last is the greatest.
proof fn indices_order_facts(pre: App, iv: Seq<usize>)
    requires
        pre.conversations@.len() <= usize::MAX,
        forall|k: int| 0 <= k < iv.len() ==> (#[trigger] iv[k]) < pre.conversations@.len(),
        forall|k1: int, k2: int| 0 <= k1 < k2 < iv.len() ==> #[trigger] iv[k1] < #[trigger] iv[k2],
        forall|k: int| 0 <= k < iv.len() ==> pre.passes_filter(#[trigger] iv[k] as int),
        forall|i: int|
            0 <= i < pre.conversations@.len() && pre.passes_filter(i) ==> iv.contains(i as usize),
        iv.len() > 0,
    ensures
        first_passing(pre, iv[0] as int),
        last_passing(pre, iv[iv.len() - 1] as int),
        forall|p: int|
            0 <= p < iv.len() - 1 ==> no_passing_between(
                pre,
                #[trigger] iv[p] as int,
                iv[p + 1] as int,
            ),
{
    assert forall|i: int| 0 <= i < iv[0] as int implies !pre.passes_filter(i) by {
        if 0 <= i < pre.conversations@.len() && pre.passes_filter(i) {
            assert(iv.contains(i as usize));
            let q = choose|q: int| 0 <= q < iv.len() && iv[q] == i as usize;
            assert(iv[q] as int == i);
            if q > 0 {
                assert(iv[0] < iv[q]);
            } else {
                assert(iv[0] as int == i);
            }
            assert(false);
        }
    }
    assert forall|i: int|
        (iv[iv.len() - 1] as int) < i < pre.conversations@.len() implies !pre.passes_filter(i) by {
        if pre.passes_filter(i) {
            assert(iv.contains(i as usize));
            let q = choose|q: int| 0 <= q < iv.len() && iv[q] == i as usize;
            assert(iv[q] as int == i);
            if q < iv.len() - 1 {
                assert(iv[q] < iv[iv.len() - 1]);
            } else {
                assert(iv[iv.len() - 1] as int == i);
            }
            assert(false);
        }
    }
    assert forall|p: int|
        0 <= p < iv.len() - 1 implies no_passing_between(pre, #[trigger] iv[p] as int, iv[p
        + 1] as int) by {
        assert forall|k: int| (iv[p] as int) < k < (iv[p + 1] as int) implies !pre.passes_filter(
            k,
        ) by {
            if 0 <= k < pre.conversations@.len() && pre.passes_filter(k) {
                assert(iv.contains(k as usize));
                let q = choose|q: int| 0 <= q < iv.len() && iv[q] == k as usize;
                assert(iv[q] as int == k);
                if q <= p {
                    if q < p {
                        assert(iv[q] < iv[p]);
                    } else {
                        assert(iv[p] as int == k);
                    }
                    assert(false);
                } else {
                    if q > p + 1 {
                        assert(iv[p + 1] < iv[q]);
                    } else {
                        assert(iv[p + 1] as int == k);
                    }
                    assert(false);
                }
            }
        }
    }
}

/// The position of `v` in `s`, scanning from the front.
#[verifier::loop_isolation(false)]
fn position_of(s: &Vec<usize>, v: usize) -> (r: Option<usize>)
    ensures
        match r {
            Some(p) => p < s@.len() && s@[p as int] == v,
            None => !s@.contains(v),
        },
{
    let mut i: usize = 0;
    while i < s.len()
        invariant
            i <= s@.len(),
            forall|k: int| 0 <= k < i ==> s@[k] != v,
        decreases s@.len() - i,
    {
        if s[i] == v {
            return Some(i);
        }
        i = i + 1;
    }
    proof {
        assert forall|k: int| 0 <= k < s@.len() implies s@[k] != v by {}
    }
    None
}

/// Whether a loaded message is an edit's target: same timestamp, and the
/// sender matches or is blank (a wildcard for the account's own rows).
pub open spec fn msg_edit_matches(
    m: crate::model::MessageModel,
    sender: Seq<char>,
    ts: i64,
) -> bool {
    m.timestamp == ts && (m.sender_uuid == sender || m.sender_uuid.len() == 0)
}

/// The first matching index in one loaded list, scanning from `i`.
pub open spec fn first_match_from(
    msgs: Seq<crate::model::MessageModel>,
    sender: Seq<char>,
    ts: i64,
    i: int,
) -> Option<int>
    decreases msgs.len() - i,
{
    if i < 0 || i >= msgs.len() {
        None
    } else if msg_edit_matches(msgs[i], sender, ts) {
        Some(i)
    } else {
        first_match_from(msgs, sender, ts, i + 1)
    }
}

/// The first matching (view, message) position, scanning views from `v`.
pub open spec fn first_edit_target(
    views: Seq<ConversationView>,
    sender: Seq<char>,
    ts: i64,
    v: int,
) -> Option<(int, int)>
    decreases views.len() - v,
{
    if v < 0 || v >= views.len() {
        None
    } else {
        match first_match_from(loaded_msgs(views[v]), sender, ts, 0) {
            Some(i) => Some((v, i)),
            None => first_edit_target(views, sender, ts, v + 1),
        }
    }
}

/// A list without a match from `i` on has no first match from `i`.
proof fn lemma_first_match_none(
    msgs: Seq<crate::model::MessageModel>,
    sender: Seq<char>,
    ts: i64,
    i: int,
)
    requires
        0 <= i <= msgs.len(),
        forall|k: int| i <= k < msgs.len() ==> !msg_edit_matches(#[trigger] msgs[k], sender, ts),
    ensures
        first_match_from(msgs, sender, ts, i) is None,
    decreases msgs.len() - i,
{
    if i < msgs.len() {
        lemma_first_match_none(msgs, sender, ts, i + 1);
    }
}

/// A match at `hit` with none before it is the first match.
proof fn lemma_first_match_at(
    msgs: Seq<crate::model::MessageModel>,
    sender: Seq<char>,
    ts: i64,
    i: int,
    hit: int,
)
    requires
        0 <= i <= hit < msgs.len(),
        msg_edit_matches(msgs[hit], sender, ts),
        forall|k: int| i <= k < hit ==> !msg_edit_matches(#[trigger] msgs[k], sender, ts),
    ensures
        first_match_from(msgs, sender, ts, i) == Some(hit),
    decreases hit - i,
{
    if i < hit {
        lemma_first_match_at(msgs, sender, ts, i + 1, hit);
    }
}

/// How a loaded view may change under an edit event: identical, or exactly
/// one-per-message replacement of a row carrying the target signal id (the
/// blank sender matches the account's own rows).
pub open spec fn view_edit_post(
    pre: ConversationView,
    post: ConversationView,
    sender: Seq<char>,
    ts: i64,
    body: Seq<char>,
) -> bool {
    &&& post.conversation == pre.conversation
    &&& post.scroll_offset == pre.scroll_offset
    &&& post.has_more_messages == pre.has_more_messages
    &&& post.selection == pre.selection
    &&& post.visible_range == pre.visible_range
    &&& post.last_message_preview == pre.last_message_preview
    &&& (pre.messages is None <==> post.messages is None)
    &&& loaded_msgs(post).len() == loaded_msgs(pre).len()
    &&& forall|i: int|
        0 <= i < loaded_msgs(pre).len() ==> (#[trigger] loaded_msgs(post)[i]) == loaded_msgs(pre)[i]
            || (loaded_msgs(pre)[i].timestamp == ts && (loaded_msgs(pre)[i].sender_uuid == sender
            || loaded_msgs(pre)[i].sender_uuid.len() == 0) && loaded_msgs(post)[i] == edited_msg(
            loaded_msgs(pre)[i],
            crate::model::ContentModel::Text { body },
        ))
}

impl App {
    /// Applies one edit event: every stored row with the target signal id
    /// (the sender's, or the account's own under a blank sender) gets the
    /// new text and the edited mark; at most one loaded message is updated
    /// in place, its id and timestamp untouched.
    #[verifier::loop_isolation(false)]
    fn handle_edit_message<S: StorageRepository>(
        &mut self,
        store: &mut S,
        sender_uuid: &str,
        edit: &EditMessage,
    )
        requires
            store_inv(old(store).store()),
            old(self).wf(),
        ensures
            final(self).wf(),
            store_inv(final(store).store()),
            final(store).store().convs == old(store).store().convs,
            edit_new_text(*edit) is None ==> final(store).store() == old(store).store()
                && *final(self) == *old(self),
            edit_new_text(*edit) matches Some(body) ==> {
                &&& final(store).store().msgs.len() == old(store).store().msgs.len()
                &&& forall|i: int|
                    0 <= i < old(store).store().msgs.len() ==> (
                    #[trigger] final(store).store().msgs[i]) == old(store).store().msgs[i] || ((
                    has_signal_id(
                        old(store).store().msgs[i],
                        sender_uuid@,
                        edit.target_sent_timestamp,
                    ) || (old(store).store().msgs[i].sender_uuid.len() == 0
                        && old(store).store().msgs[i].timestamp == edit.target_sent_timestamp))
                        && final(store).store().msgs[i] == edited_msg(
                        old(store).store().msgs[i],
                        crate::model::ContentModel::Text { body },
                    ))
                &&& final(self).conversations@.len() == old(self).conversations@.len()
                &&& forall|v: int|
                    0 <= v < old(self).conversations@.len() ==> view_edit_post(
                        #[trigger] old(self).conversations@[v],
                        final(self).conversations@[v],
                        sender_uuid@,
                        edit.target_sent_timestamp,
                        body,
                    )
                &&& (match first_edit_target(
                    old(self).conversations@,
                    sender_uuid@,
                    edit.target_sent_timestamp,
                    0,
                ) {
                    Some(t) => loaded_msgs(final(self).conversations@[t.0])[t.1] == edited_msg(
                        loaded_msgs(old(self).conversations@[t.0])[t.1],
                        crate::model::ContentModel::Text { body },
                    ),
                    None => final(self).conversations@ == old(self).conversations@,
                })
            },
    {
        let data = match &edit.data_message {
            Some(d) => d,
            None => {
                return ;
            },
        };
        let has_text = match &data.message {
            Some(t) => t.as_str().unicode_len() > 0,
            None => false,
        };
        if !has_text {
            return ;
        }
        let new_text: String = match &data.message {
            Some(t) => t.clone(),
            None => String::new(),
        };
        let ghost body = new_text@;
        let target_timestamp = edit.target_sent_timestamp;
        let new_content = MessageContent::Text { body: new_text };
        let ghost pre_store = store.store();
        let r1 = store.update_message_content(sender_uuid, target_timestamp, &new_content);
        let ghost mid_store = store.store();
        let r2 = store.update_message_content("", target_timestamp, &new_content);
        proof {
            reveal_strlit("");
            assert(""@.len() == 0);
            let post = store.store();
            assert forall|i: int|
                0 <= i < pre_store.msgs.len() implies (#[trigger] post.msgs[i])
                == pre_store.msgs[i] || ((has_signal_id(
                pre_store.msgs[i],
                sender_uuid@,
                target_timestamp,
            ) || (pre_store.msgs[i].sender_uuid.len() == 0 && pre_store.msgs[i].timestamp
                == target_timestamp)) && post.msgs[i] == edited_msg(
                pre_store.msgs[i],
                crate::model::ContentModel::Text { body },
            )) by {
                let m0 = pre_store.msgs[i];
                let e0 = edited_msg(m0, crate::model::ContentModel::Text { body });
                assert(edited_msg(e0, crate::model::ContentModel::Text { body }) =~= e0);
                if m0.sender_uuid.len() == 0 {
                    assert(m0.sender_uuid =~= ""@);
                }
                if mid_store.msgs[i] == e0 && m0.sender_uuid.len() == 0 {
                    assert(e0.sender_uuid =~= ""@);
                }
            }
        }
        // Update the first loaded message carrying the target id, in place.
        let ghost pre_self = *self;
        let mut v: usize = 0;
        while v < self.conversations.len()
            invariant
                v <= self.conversations@.len(),
                *self == (App { conversations: self.conversations, ..pre_self }),
                self.conversations@ == pre_self.conversations@,
                first_edit_target(pre_self.conversations@, sender_uuid@, target_timestamp, 0)
                    == first_edit_target(
                    pre_self.conversations@,
                    sender_uuid@,
                    target_timestamp,
                    v as int,
                ),
            decreases self.conversations@.len() - v,
        {
            proof {
                assert(self.conversations@[v as int].wf());
            }
            let conv = &mut self.conversations[v];
            let ghost conv_pre = *conv;
            proof {
                assert(conv_pre == pre_self.conversations@[v as int]);
            }
            let taken = conv.messages.take();
            match taken {
                Some(mut msgs) => {
                    let ghost msgs_pre = msgs@;
                    let ghost msgs_val = msgs;
                    let mut i: usize = 0;
                    while i < msgs.len()
                        invariant
                            i <= msgs@.len(),
                            msgs == msgs_val,
                            msgs@ == msgs_pre,
                            conv_pre.messages == Some(msgs_val),
                            conv.messages is None,
                            *conv == (ConversationView { messages: None, ..conv_pre }),
                            forall|k: int|
                                0 <= k < i ==> !msg_edit_matches(
                                    #[trigger] msgs_view(msgs_pre)[k],
                                    sender_uuid@,
                                    target_timestamp,
                                ),
                        decreases msgs@.len() - i,
                    {
                        proof {
                            assert(msgs_view(msgs_pre)[i as int] == msgs_pre[i as int]@);
                        }
                        let sender_matches = str_eq(msgs[i].sender_uuid.as_str(), sender_uuid)
                            || msgs[i].sender_uuid.as_str().unicode_len() == 0;
                        if msgs[i].timestamp == target_timestamp && sender_matches {
                            let mut patched = msgs[i].duplicate();
                            patched.content = new_content.duplicate();
                            patched.is_edited = true;
                            proof {
                                assert(patched@ =~= edited_msg(
                                    msgs_pre[i as int]@,
                                    crate::model::ContentModel::Text { body },
                                ));
                            }
                            msgs.set(i, patched);
                            conv.messages = Some(msgs);
                            proof {
                                let em = edited_msg(
                                    msgs_pre[i as int]@,
                                    crate::model::ContentModel::Text { body },
                                );
                                assert(msgs_view(conv.messages->0@) =~= msgs_view(
                                    msgs_pre,
                                ).update(i as int, em));
                                assert(loaded_msgs(conv_pre) =~= msgs_view(msgs_pre));
                                assert(loaded_msgs(*conv) =~= msgs_view(msgs_pre).update(
                                    i as int,
                                    em,
                                ));
                                assert(conv_pre.wf());
                                assert(conv.wf());
                                assert forall|k: int|
                                    0 <= k < loaded_msgs(conv_pre).len() implies (
                                #[trigger] loaded_msgs(*conv)[k]) == loaded_msgs(conv_pre)[k] || (
                                loaded_msgs(conv_pre)[k].timestamp == target_timestamp && (
                                loaded_msgs(conv_pre)[k].sender_uuid == sender_uuid@
                                    || loaded_msgs(conv_pre)[k].sender_uuid.len() == 0)
                                    && loaded_msgs(*conv)[k] == edited_msg(
                                    loaded_msgs(conv_pre)[k],
                                    crate::model::ContentModel::Text { body },
                                )) by {
                                    if k != i {
                                        assert(loaded_msgs(*conv)[k] == msgs_view(msgs_pre)[k]);
                                    }
                                }
                                assert(view_edit_post(
                                    conv_pre,
                                    *conv,
                                    sender_uuid@,
                                    target_timestamp,
                                    body,
                                ));
                                assert(msg_edit_matches(
                                    msgs_view(msgs_pre)[i as int],
                                    sender_uuid@,
                                    target_timestamp,
                                ));
                                lemma_first_match_at(
                                    msgs_view(msgs_pre),
                                    sender_uuid@,
                                    target_timestamp,
                                    0,
                                    i as int,
                                );
                                assert(loaded_msgs(pre_self.conversations@[v as int])
                                    == msgs_view(msgs_pre));
                                assert(first_edit_target(
                                    pre_self.conversations@,
                                    sender_uuid@,
                                    target_timestamp,
                                    v as int,
                                ) == Some((v as int, i as int)));
                                assert(loaded_msgs(*conv)[i as int] == em);
                            }
                            return ;
                        }
                        i = i + 1;
                    }
                    conv.messages = Some(msgs);
                    proof {
                        assert(*conv == conv_pre);
                        lemma_first_match_none(
                            msgs_view(msgs_pre),
                            sender_uuid@,
                            target_timestamp,
                            0,
                        );
                        assert(loaded_msgs(pre_self.conversations@[v as int]) == msgs_view(
                            msgs_pre,
                        ));
                        assert(first_edit_target(
                            pre_self.conversations@,
                            sender_uuid@,
                            target_timestamp,
                            v as int,
                        ) == first_edit_target(
                            pre_self.conversations@,
                            sender_uuid@,
                            target_timestamp,
                            v as int + 1,
                        ));
                    }
                },
                None => {
                    conv.messages = None;
                    proof {
                        assert(*conv == conv_pre);
                        assert(loaded_msgs(pre_self.conversations@[v as int])
                            =~= Seq::<crate::model::MessageModel>::empty());
                        assert(first_match_from(
                            loaded_msgs(pre_self.conversations@[v as int]),
                            sender_uuid@,
                            target_timestamp,
                            0,
                        ) is None);
                        assert(first_edit_target(
                            pre_self.conversations@,
                            sender_uuid@,
                            target_timestamp,
                            v as int,
                        ) == first_edit_target(
                            pre_self.conversations@,
                            sender_uuid@,
                            target_timestamp,
                            v as int + 1,
                        ));
                    }
                },
            }
            v = v + 1;
        }
        proof {
            assert(first_edit_target(
                pre_self.conversations@,
                sender_uuid@,
                target_timestamp,
                v as int,
            ) is None);
        }
    }
}

/// Builds stored content from an inbound payload: an attachment list when
/// any attachments came, else the text body.
#[verifier::loop_isolation(false)]
fn build_incoming_content(text: String, atts: &Vec<Attachment>) -> (r: MessageContent)
    ensures
        r@ == incoming_content(text@, atts@),
{
    if atts.len() > 0 {
        let mut infos: Vec<AttachmentInfo> = Vec::new();
        let mut i: usize = 0;
        while i < atts.len()
            invariant
                i <= atts@.len(),
                infos@.len() == i,
                forall|k: int| 0 <= k < i ==> #[trigger] infos@[k]@ == incoming_att(atts@[k]),
            decreases atts@.len() - i,
        {
            let a = &atts[i];
            let info = AttachmentInfo {
                id: crate::model::clone_opt_string(&a.id),
                content_type: crate::model::clone_opt_string(&a.content_type),
                filename: crate::model::clone_opt_string(&a.filename),
                size: match a.size {
                    Some(n) => Some(n as u64),
                    None => None,
                },
                local_path: crate::model::clone_opt_string(&a.id),
            };
            proof {
                assert(info@ =~= incoming_att(atts@[i as int]));
            }
            infos.push(info);
            i = i + 1;
        }
        let r = MessageContent::Attachment { attachments: infos };
        proof {
            assert(infos@.map_values(|a: AttachmentInfo| a@) =~= atts@.map_values(
                |a: Attachment| incoming_att(a),
            ));
            assert(r@ =~= incoming_content(text@, atts@));
        }
        r
    } else {
        MessageContent::Text { body: text }
    }
}

impl App {
    /// Marks the selected direct conversation read: persists the high-water
    /// mark (best effort), flips the loaded incoming messages, and hands
    /// back the recipient and timestamps for the read receipt. `None`
    /// exactly when there is nothing to do, and then nothing changes.
    #[verifier::loop_isolation(false)]
    pub fn mark_current_conversation_read<S: StorageRepository>(&mut self, store: &mut S) -> (r:
        Option<(String, Vec<i64>)>)
        requires
            store_inv(old(store).store()),
            old(self).wf(),
        ensures
            final(self).wf(),
            store_inv(final(store).store()),
            (r is Some) == (old(self).selected < old(self).conversations@.len() && ({
                let cv = old(self).conversations@[old(self).selected as int];
                &&& cv.conversation.conversation_type == ConversationType::Direct
                &&& crate::view::unread_incoming_ts(loaded_msgs(cv)).len() > 0
                &&& (cv.conversation@.recipient_uuid is Some
                    || cv.conversation@.recipient_number is Some)
            })),
            r is None ==> *final(self) == *old(self) && final(store).store() == old(store).store(),
            r matches Some(p) ==> ({
                let sel = old(self).selected as int;
                let cv = old(self).conversations@[sel];
                &&& p.1@ == crate::view::unread_incoming_ts(loaded_msgs(cv))
                &&& (match (cv.conversation@.recipient_uuid, cv.conversation@.recipient_number) {
                    (Some(u), _) => p.0@ == u,
                    (None, Some(n)) => p.0@ == n,
                    (None, None) => false,
                })
                &&& *final(self) == (App {
                    conversations: final(self).conversations,
                    ..*old(self)
                })
                &&& final(self).conversations@.len() == old(self).conversations@.len()
                &&& (forall|w: int|
                    0 <= w < old(self).conversations@.len() && w != sel
                        ==> #[trigger] final(self).conversations@[w]
                        == old(self).conversations@[w])
                &&& final(self).conversations@[sel] == (ConversationView {
                    messages: final(self).conversations@[sel].messages,
                    ..cv
                })
                &&& (cv.messages is Some <==> final(self).conversations@[sel].messages is Some)
                &&& loaded_msgs(final(self).conversations@[sel]).len() == loaded_msgs(cv).len()
                &&& (forall|i: int|
                    0 <= i < loaded_msgs(cv).len()
                        ==> #[trigger] loaded_msgs(final(self).conversations@[sel])[i] == (
                    if !loaded_msgs(cv)[i].is_outgoing && p.1@.contains(
                        loaded_msgs(cv)[i].timestamp,
                    ) {
                        crate::store::read_msg(loaded_msgs(cv)[i])
                    } else {
                        loaded_msgs(cv)[i]
                    }))
                &&& final(store).store().convs == old(store).store().convs
                &&& final(store).store().msgs.len() == old(store).store().msgs.len()
                &&& (forall|i: int|
                    0 <= i < old(store).store().msgs.len() ==> (
                    #[trigger] final(store).store().msgs[i]) == old(store).store().msgs[i]
                        || final(store).store().msgs[i] == crate::store::read_msg(
                        old(store).store().msgs[i],
                    ))
            }),
    {
        if self.selected >= self.conversations.len() {
            return None;
        }
        let is_direct = matches!(
            self.conversations[self.selected].conversation.conversation_type,
            ConversationType::Direct
        );
        if !is_direct {
            return None;
        }
        let timestamps = self.conversations[self.selected].unread_incoming_timestamps();
        if timestamps.len() == 0 {
            return None;
        }
        let conversation_id = self.conversations[self.selected].conversation.id.clone();
        let recipient: String = match &self.conversations[self.selected].conversation.recipient_uuid
             {
            Some(u) => u.clone(),
            None => match &self.conversations[self.selected].conversation.recipient_number {
                Some(n) => n.clone(),
                None => {
                    return None;
                },
            },
        };
        let mut max_ts: i64 = timestamps[0];
        let mut t: usize = 1;
        while t < timestamps.len()
            decreases timestamps@.len() - t,
        {
            if timestamps[t] > max_ts {
                max_ts = timestamps[t];
            }
            t = t + 1;
        }
        let _ = store.mark_messages_read(conversation_id.as_str(), max_ts);
        proof {
            assert(self.conversations@[self.selected as int].wf());
        }
        let conv = &mut self.conversations[self.selected];
        let ghost conv_pre = *conv;
        let taken = conv.messages.take();
        match taken {
            Some(mut msgs) => {
                let ghost msgs_pre = msgs@;
                let mut i: usize = 0;
                while i < msgs.len()
                    invariant
                        i <= msgs@.len(),
                        msgs@.len() == msgs_pre.len(),
                        forall|k: int|
                            0 <= k < i ==> #[trigger] msgs_view(msgs@)[k] == (
                            if !msgs_pre[k]@.is_outgoing && timestamps@.contains(
                                msgs_pre[k]@.timestamp,
                            ) {
                                crate::store::read_msg(msgs_pre[k]@)
                            } else {
                                msgs_pre[k]@
                            }),
                        forall|k: int|
                            i <= k < msgs_pre.len() ==> #[trigger] msgs_view(msgs@)[k]
                                == msgs_pre[k]@,
                    decreases msgs@.len() - i,
                {
                    proof {
                        assert(msgs_view(msgs@)[i as int] == msgs@[i as int]@);
                    }
                    if !msgs[i].is_outgoing && contains_i64(&timestamps, msgs[i].timestamp) {
                        let mut patched = msgs[i].duplicate();
                        patched.is_read = true;
                        proof {
                            assert(patched@ =~= crate::store::read_msg(msgs_pre[i as int]@));
                        }
                        let ghost before_set = msgs@;
                        msgs.set(i, patched);
                        proof {
                            assert(msgs_view(msgs@) =~= msgs_view(before_set).update(
                                i as int,
                                patched@,
                            ));
                        }
                    }
                    i = i + 1;
                }
                conv.messages = Some(msgs);
                proof {
                    assert(conv.wf());
                    assert(*conv == (ConversationView { messages: conv.messages, ..conv_pre }));
                    assert(loaded_msgs(conv_pre) =~= msgs_view(msgs_pre));
                }
            },
            None => {
                conv.messages = None;
                proof {
                    assert(conv.wf());
                    assert(*conv == conv_pre);
                }
            },
        }
        Some((recipient, timestamps))
    }

    /// Persists one reconciled message (best effort) and folds it into its
    /// conversation's view unconditionally: a store write failure is
    /// swallowed and the in-memory state still advances.
    pub fn ingest_message<S: StorageRepository>(
        &mut self,
        store: &mut S,
        conv: &Conversation,
        message: Message,
    )
        requires
            store_inv(old(store).store()),
            old(self).wf(),
        ensures
            final(self).wf(),
            store_inv(final(store).store()),
            final(store).store() == old(store).store() || crate::store::save_message_post(
                old(store).store(),
                final(store).store(),
                message@,
            ),
            (exists|j: int|
                0 <= j < old(self).conversations@.len()
                    && (#[trigger] old(self).conversations@[j]).conversation.id@ == conv.id@)
                ==> views_sorted_desc(final(self).conversations@) && appended_to_views(
                old(self).conversations@,
                final(self).conversations@,
                conv.id@,
                message@,
            ) && (old(self).selected < old(self).conversations@.len()
                ==> final(self).selected < final(self).conversations@.len()
                && final(self).conversations@[final(self).selected as int].conversation.id@
                == old(self).conversations@[old(self).selected as int].conversation.id@),
            (forall|k: int|
                0 <= k < old(self).conversations@.len() ==> (#[trigger] old(
                    self,
                ).conversations@[k]).conversation.id@ != conv.id@) ==> (*final(self) == *old(self)
                || rebuilt_views(final(self).conversations@, final(store).store())),
    {
        let _ = store.save_message(&message);
        self.add_message_to_conversation(&*store, conv.id.as_str(), message);
    }

    /// Folds one inbound protocol event into the store and the views:
    /// data messages are stored and appended; own-device echoes are dropped
    /// when their signal id is already stored, so reconciling the same echo
    /// twice leaves exactly one row; edits rewrite the targeted content.
    /// Events without a sender are dropped silently.
    #[verifier::rlimit(80)]
    pub fn handle_incoming_message<S: StorageRepository>(
        &mut self,
        store: &mut S,
        msg: IncomingMessage,
    )
        requires
            store_inv(old(store).store()),
            old(self).wf(),
        ensures
            final(self).wf(),
            store_inv(final(store).store()),
            msg.envelope.source_uuid is None ==> *final(self) == *old(self) && final(store).store()
                == old(store).store(),
            (msg.envelope.source_uuid is Some && (match msg.envelope.data_message {
                Some(d) => payload_empty(d),
                None => false,
            })) ==> *final(self) == *old(self) && final(store).store() == old(store).store(),
            (match (msg.envelope.source_uuid, msg.envelope.timestamp, msg.envelope.data_message) {
                (Some(s), Some(ts), Some(d)) => (!payload_empty(d)
                    && msg.envelope.edit_message is None && msg.envelope.sync_message is None)
                    ==> data_ingest_post(
                    *old(self),
                    *final(self),
                    old(store).store(),
                    final(store).store(),
                    s@,
                    ts,
                    payload_text(d.message),
                    d.attachments@,
                    opt_view(old(self).my_uuid) == Some(s@),
                ),
                _ => true,
            }),
            (msg.envelope.data_message is None && msg.envelope.edit_message is None) ==> (
            match echo_key(msg.envelope) {
                Some(k) => {
                    let pre = count_signal_id(old(store).store().msgs, k.0, k.1);
                    let post = count_signal_id(final(store).store().msgs, k.0, k.1);
                    &&& (pre >= 1 ==> post == pre)
                    &&& (pre == 0 ==> post <= 1)
                    &&& (pre == 0 && post == 1 ==> exists|i: int|
                        0 <= i < final(store).store().msgs.len() && has_signal_id(
                            #[trigger] final(store).store().msgs[i],
                            k.0,
                            k.1,
                        ) && final(store).store().msgs[i].is_outgoing
                            && final(store).store().msgs[i].is_read)
                    &&& (pre == 0 ==> (match msg.envelope.sync_message {
                        Some(sm) => match sm.sent_message {
                            Some(sent) => data_ingest_post(
                                *old(self),
                                *final(self),
                                old(store).store(),
                                final(store).store(),
                                k.0,
                                k.1,
                                payload_text(sent.message),
                                sent.attachments@,
                                true,
                            ),
                            None => true,
                        },
                        None => true,
                    }))
                },
                None => true,
            }),
    {
        let envelope = &msg.envelope;
        let sender_uuid: String = match &envelope.source_uuid {
            Some(u) => u.clone(),
            None => {
                return ;
            },
        };
        let timestamp: i64 = match envelope.timestamp {
            Some(t) => t,
            None => crate::sys::now_millis(),
        };
        if let Some(data) = &envelope.data_message {
            let text: String = match &data.message {
                Some(t) => t.clone(),
                None => String::new(),
            };
            if text.as_str().unicode_len() == 0 && data.attachments.len() == 0 {
                return ;
            }
            let is_outgoing = match &self.my_uuid {
                Some(u) => str_eq(u.as_str(), sender_uuid.as_str()),
                None => false,
            };
            let conversation: Option<Conversation> = match &data.group_info {
                Some(group) => match store.get_or_create_group_conversation(
                    group.group_id.as_str(),
                    None,
                ) {
                    Ok(c) => Some(c),
                    Err(_) => None,
                },
                None => match store.get_or_create_direct_conversation(
                    sender_uuid.as_str(),
                    envelope.source.as_ref(),
                    envelope.source_name.as_ref(),
                ) {
                    Ok(c) => Some(c),
                    Err(_) => None,
                },
            };
            if let Some(conv) = conversation {
                let content = build_incoming_content(text, &data.attachments);
                let message = Message {
                    id: crate::sys::fresh_uuid(),
                    conversation_id: conv.id.clone(),
                    sender_uuid: sender_uuid.clone(),
                    sender_name: crate::model::clone_opt_string(&envelope.source_name),
                    timestamp,
                    server_timestamp: None,
                    received_at: crate::sys::now_millis(),
                    content,
                    quote: None,
                    is_outgoing,
                    is_read: is_outgoing,
                    is_deleted: false,
                    is_edited: false,
                };
                let ghost mm = message@;
                self.ingest_message(store, &conv, message);
                proof {
                    if envelope.timestamp is Some && envelope.edit_message is None
                        && envelope.sync_message is None {
                        assert(data_ingest_post(
                            *old(self),
                            *self,
                            old(store).store(),
                            store.store(),
                            sender_uuid@,
                            timestamp,
                            payload_text(data.message),
                            data.attachments@,
                            is_outgoing,
                        )) by {
                            assert(mm.sender_uuid == sender_uuid@);
                            assert(mm.content == incoming_content(
                                payload_text(data.message),
                                data.attachments@,
                            ));
                        }
                    }
                }
            }
        }
        if let Some(edit) = &envelope.edit_message {
            self.handle_edit_message(store, sender_uuid.as_str(), edit);
        }
        if let Some(sync) = &envelope.sync_message {
            if let Some(sent) = &sync.sent_message {
                if let Some(edit) = &sent.edit_message {
                    self.handle_edit_message(store, sender_uuid.as_str(), edit);
                    return ;
                }
                let text: String = match &sent.message {
                    Some(t) => t.clone(),
                    None => String::new(),
                };
                if text.as_str().unicode_len() == 0 && sent.attachments.len() == 0 {
                    return ;
                }
                let sync_timestamp: i64 = match sent.timestamp {
                    Some(t) => t,
                    None => timestamp,
                };
                let ghost pre_msgs = store.store().msgs;
                let looked_up = store.get_message_by_signal_id(
                    sender_uuid.as_str(),
                    sync_timestamp,
                );
                if let Some(existing) = looked_up {
                    proof {
                        lemma_count_zero_iff_none(pre_msgs, sender_uuid@, sync_timestamp);
                        let w = choose|w: int|
                            0 <= w < pre_msgs.len() && pre_msgs[w] == existing@;
                        assert(has_signal_id(pre_msgs[w], sender_uuid@, sync_timestamp));
                    }
                    return ;
                }
                let conversation: Option<Conversation> = match &sent.group_info {
                    Some(group) => match store.get_or_create_group_conversation(
                        group.group_id.as_str(),
                        None,
                    ) {
                        Ok(c) => Some(c),
                        Err(_) => None,
                    },
                    None => match &sent.destination_uuid {
                        Some(dest) => match store.get_or_create_direct_conversation(
                            dest.as_str(),
                            sent.destination.as_ref(),
                            None,
                        ) {
                            Ok(c) => Some(c),
                            Err(_) => None,
                        },
                        None => match &sent.destination {
                            Some(dest) => match store.get_or_create_direct_conversation(
                                dest.as_str(),
                                Some(dest),
                                None,
                            ) {
                                Ok(c) => Some(c),
                                Err(_) => None,
                            },
                            None => None,
                        },
                    },
                };
                if let Some(conv) = conversation {
                    let content = build_incoming_content(text, &sent.attachments);
                    let message = Message {
                        id: crate::sys::fresh_uuid(),
                        conversation_id: conv.id.clone(),
                        sender_uuid: sender_uuid.clone(),
                        sender_name: crate::model::clone_opt_string(&envelope.source_name),
                        timestamp: sync_timestamp,
                        server_timestamp: None,
                        received_at: crate::sys::now_millis(),
                        content,
                        quote: None,
                        is_outgoing: true,
                        is_read: true,
                        is_deleted: false,
                        is_edited: false,
                    };
                    let ghost mm = message@;
                    self.ingest_message(store, &conv, message);
                    proof {
                        if envelope.data_message is None && envelope.edit_message is None {
                            if let Some(k) = echo_key(msg.envelope) {
                                assert(k.0 == sender_uuid@ && k.1 == sync_timestamp);
                                assert(data_ingest_post(
                                    *old(self),
                                    *self,
                                    old(store).store(),
                                    store.store(),
                                    k.0,
                                    k.1,
                                    payload_text(sent.message),
                                    sent.attachments@,
                                    true,
                                )) by {
                                    assert(mm.sender_uuid == sender_uuid@);
                                    assert(mm.content == incoming_content(
                                        payload_text(sent.message),
                                        sent.attachments@,
                                    ));
                                }
                            }
                        }
                    }
                }
            }
        }
    }
}

} // verus!
