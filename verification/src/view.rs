//! Per-conversation in-memory window over the store: pagination state,
//! message appends, and anchor/cursor range selection.

use vstd::prelude::*;

use crate::model::{
    distinct_signal_ids, lemma_msgs_view_push, msgs_view, strictly_ascending_by_timestamp,
    AttachmentInfo, AttachmentModel, ContentModel, Conversation, ConversationType, Message,
    MessageContent, MessageModel,
};
use crate::store::{eligible_msgs, newest_page, store_inv, StorageRepository};
use crate::text::str_starts_with;

verus! {

/// An anchor/cursor pair over the loaded message list; the selected range is
/// `[min(anchor, cursor), max(anchor, cursor)]`, inclusive.
#[derive(Debug, Clone, Copy, PartialEq, Eq, Structural)]
pub struct MessageSelection {
    pub anchor: usize,
    pub cursor: usize,
}

impl MessageSelection {
    /// The selected range as an inclusive pair `(low, high)`.
    pub fn range(&self) -> (r: (usize, usize))
        ensures
            r.0 == self.spec_low(),
            r.1 == self.spec_high(),
    {
        if self.anchor <= self.cursor {
            (self.anchor, self.cursor)
        } else {
            (self.cursor, self.anchor)
        }
    }

    /// The lower end of the selection.
    pub open spec fn spec_low(&self) -> usize {
        if self.anchor <= self.cursor {
            self.anchor
        } else {
            self.cursor
        }
    }

    /// The upper end of the selection.
    pub open spec fn spec_high(&self) -> usize {
        if self.anchor <= self.cursor {
            self.cursor
        } else {
            self.anchor
        }
    }
}

/// Where a remote-delete request is addressed.
#[derive(Debug, Clone)]
pub enum RemoteDeleteTarget {
    Direct(String),
    Group(String),
}

/// A remote-delete request waiting for the backend.
#[derive(Debug, Clone)]
pub struct PendingRemoteDelete {
    pub target: RemoteDeleteTarget,
    pub timestamps: Vec<i64>,
}

/// The in-memory window over one conversation. `messages: None` means the
/// history has not been paged in yet; an empty list means the conversation is
/// known to be empty.
#[derive(Debug)]
pub struct ConversationView {
    pub conversation: Conversation,
    pub messages: Option<Vec<Message>>,
    pub scroll_offset: usize,
    pub has_more_messages: bool,
    pub selection: Option<MessageSelection>,
    pub visible_range: Option<(usize, usize)>,
    pub last_message_preview: Option<Message>,
}

/// The models of the loaded messages, or the empty sequence when unloaded.
pub open spec fn loaded_msgs(v: ConversationView) -> Seq<MessageModel> {
    match v.messages {
        Some(m) => msgs_view(m@),
        None => Seq::empty(),
    }
}

/// The view of an optional message.
pub open spec fn opt_msg_view(o: Option<Message>) -> Option<MessageModel> {
    match o {
        Some(m) => Some(m@),
        None => None,
    }
}

/// The views of a list of strings.
pub open spec fn strs_view(s: Seq<String>) -> Seq<Seq<char>> {
    s.map_values(|x: String| x@)
}

/// Whether a content type names an image.
pub open spec fn is_image_ct(ct: Option<Seq<char>>) -> bool {
    match ct {
        Some(s) => "image/"@.len() <= s.len() && s.subrange(0, "image/"@.len() as int)
            == "image/"@,
        None => false,
    }
}

/// The local paths contributed by one attachment: its path when it is an
/// image that was stored locally, nothing otherwise.
pub open spec fn att_image_path(a: AttachmentModel) -> Seq<Seq<char>> {
    if is_image_ct(a.content_type) && a.local_path is Some {
        seq![a.local_path->0]
    } else {
        Seq::empty()
    }
}

/// The image paths of a list of attachments, in order.
pub open spec fn image_paths_of_atts(atts: Seq<AttachmentModel>) -> Seq<Seq<char>>
    decreases atts.len(),
{
    if atts.len() == 0 {
        Seq::empty()
    } else {
        image_paths_of_atts(atts.drop_last()) + att_image_path(atts.last())
    }
}

/// The image paths of one message's content.
pub open spec fn image_paths_of_content(c: ContentModel) -> Seq<Seq<char>> {
    match c {
        ContentModel::Attachment { attachments } => image_paths_of_atts(attachments),
        _ => Seq::empty(),
    }
}

/// The image paths of a message list, oldest message first.
pub open spec fn image_paths_fwd(msgs: Seq<MessageModel>) -> Seq<Seq<char>>
    decreases msgs.len(),
{
    if msgs.len() == 0 {
        Seq::empty()
    } else {
        image_paths_fwd(msgs.drop_last()) + image_paths_of_content(msgs.last().content)
    }
}

/// The image paths of a message list, newest message first.
pub open spec fn image_paths_rev(msgs: Seq<MessageModel>) -> Seq<Seq<char>> {
    image_paths_fwd(msgs.reverse())
}

/// The timestamps of unread incoming messages, in order.
pub open spec fn unread_incoming_ts(s: Seq<MessageModel>) -> Seq<i64>
    decreases s.len(),
{
    if s.len() == 0 {
        Seq::empty()
    } else {
        unread_incoming_ts(s.drop_last()) + if !s.last().is_read && !s.last().is_outgoing {
            seq![s.last().timestamp]
        } else {
            Seq::empty()
        }
    }
}

/// The timestamps of outgoing messages, in order.
pub open spec fn outgoing_ts(s: Seq<MessageModel>) -> Seq<i64>
    decreases s.len(),
{
    if s.len() == 0 {
        Seq::empty()
    } else {
        outgoing_ts(s.drop_last()) + if s.last().is_outgoing {
            seq![s.last().timestamp]
        } else {
            Seq::empty()
        }
    }
}

/// The locally stored paths of a list of attachments, of any content type.
pub open spec fn att_local_paths(atts: Seq<AttachmentModel>) -> Seq<Seq<char>>
    decreases atts.len(),
{
    if atts.len() == 0 {
        Seq::empty()
    } else {
        att_local_paths(atts.drop_last()) + match atts.last().local_path {
            Some(p) => seq![p],
            None => Seq::empty(),
        }
    }
}

/// The locally stored attachment paths of one message's content.
pub open spec fn content_local_paths(c: ContentModel) -> Seq<Seq<char>> {
    match c {
        ContentModel::Attachment { attachments } => att_local_paths(attachments),
        _ => Seq::empty(),
    }
}

/// The locally stored attachment paths of a message list, in order.
pub open spec fn local_paths_fwd(msgs: Seq<MessageModel>) -> Seq<Seq<char>>
    decreases msgs.len(),
{
    if msgs.len() == 0 {
        Seq::empty()
    } else {
        local_paths_fwd(msgs.drop_last()) + content_local_paths(msgs.last().content)
    }
}

/// How one attachment reads in copied text: its file name, or a placeholder.
pub open spec fn attachment_name(a: AttachmentModel) -> Seq<char> {
    match a.filename {
        Some(f) => f,
        None => "[attachment]"@,
    }
}

/// Attachment names joined with a comma and a space.
pub open spec fn joined_names(atts: Seq<AttachmentModel>) -> Seq<char>
    decreases atts.len(),
{
    if atts.len() == 0 {
        Seq::empty()
    } else if atts.len() == 1 {
        attachment_name(atts[0])
    } else {
        joined_names(atts.drop_last()) + ", "@ + attachment_name(atts.last())
    }
}

/// How one message reads in copied text.
pub open spec fn message_text(m: MessageModel) -> Seq<char> {
    match m.content {
        ContentModel::Text { body } => body,
        ContentModel::Attachment { attachments } => joined_names(attachments),
        ContentModel::Sticker { pack_id, sticker_id } => "[Sticker]"@,
        ContentModel::RemoteDeleted => "[Deleted]"@,
    }
}

/// The texts of messages `lo..=hi`, joined with newlines.
pub open spec fn joined_lines(s: Seq<MessageModel>, lo: int, hi: int) -> Seq<char>
    recommends
        0 <= lo <= hi < s.len(),
    decreases hi - lo,
{
    if hi <= lo {
        message_text(s[lo])
    } else {
        joined_lines(s, lo, hi - 1) + seq!['\n'] + message_text(s[hi])
    }
}

/// What one backward page does to a view: nothing when no more history
/// exists, nothing is loaded, or the store failed; otherwise the newest page
/// of strictly older rows is prepended (an empty page ends pagination), the
/// scroll offset and selection are untouched, and `paths` holds the image
/// paths the page introduced.
pub open spec fn load_older_post(
    pre: ConversationView,
    post: ConversationView,
    store: crate::store::StoreModel,
    paths: Seq<Seq<char>>,
) -> bool {
    &&& post.conversation == pre.conversation
    &&& post.scroll_offset == pre.scroll_offset
    &&& post.selection == pre.selection
    &&& post.visible_range == pre.visible_range
    &&& post.last_message_preview == pre.last_message_preview
    &&& (!(pre.has_more_messages && pre.messages is Some && loaded_msgs(pre).len() > 0) ==> post
        == pre && paths.len() == 0)
    &&& ((pre.has_more_messages && pre.messages is Some && loaded_msgs(pre).len() > 0) ==> {
        let before = loaded_msgs(pre)[0].timestamp;
        let page = newest_page(eligible_msgs(store, pre.conversation.id@, Some(before)), 100);
        ||| (post == pre && paths.len() == 0)
        ||| (page.len() == 0 && paths.len() == 0 && post == (ConversationView {
            has_more_messages: false,
            ..pre
        }))
        ||| (page.len() > 0 && loaded_msgs(post) == page + loaded_msgs(pre) && post.messages
            is Some && post.has_more_messages == (page.len() >= 100) && paths == image_paths_fwd(
            page,
        ))
    })
}

/// What entering selection mode does: with a non-empty loaded history the
/// anchor and cursor land on the centre of the visible range (or the newest
/// message), clamped to the list; otherwise nothing changes.
pub open spec fn enter_selection_post(pre: ConversationView, post: ConversationView) -> bool {
    &&& ((match pre.messages {
        Some(m) => m@.len() > 0,
        None => false,
    }) ==> {
        let len = loaded_msgs(pre).len();
        let centre: int = match pre.visible_range {
            Some((s, e)) => ((s + e) as int) / 2,
            None => len - 1,
        };
        let idx: int = if centre < len {
            centre
        } else {
            len - 1
        };
        post == (ConversationView {
            selection: Some(MessageSelection { anchor: idx as usize, cursor: idx as usize }),
            ..pre
        })
    })
    &&& ((match pre.messages {
        Some(m) => m@.len() == 0,
        None => true,
    }) ==> post == pre)
}

/// What one cursor move does: the cursor steps by one, clamped to the loaded
/// list, and without `extend` the anchor snaps along; a view with no loaded
/// messages or no active selection is untouched.
pub open spec fn move_selection_post(
    pre: ConversationView,
    post: ConversationView,
    direction: i32,
    extend: bool,
) -> bool {
    &&& ((match (pre.messages, pre.selection) {
        (Some(m), Some(_)) => m@.len() > 0,
        _ => false,
    }) ==> {
        let len = loaded_msgs(pre).len();
        let sel = pre.selection->0;
        let new_cursor: int = if direction < 0 {
            if sel.cursor > 0 {
                sel.cursor - 1
            } else {
                0
            }
        } else {
            if sel.cursor + 1 < len {
                sel.cursor + 1
            } else {
                len - 1
            }
        };
        post == (ConversationView {
            selection: Some(
                MessageSelection {
                    anchor: if extend {
                        sel.anchor
                    } else {
                        new_cursor as usize
                    },
                    cursor: new_cursor as usize,
                },
            ),
            ..pre
        })
    })
    &&& ((match (pre.messages, pre.selection) {
        (Some(m), Some(_)) => m@.len() > 0,
        _ => false,
    }) == false ==> post == pre)
}

/// What deleting the selection does: the inclusive range leaves the loaded
/// list, the selection clears, and `ids` are the removed rows' local ids; a
/// view without a selection is untouched and yields no ids.
pub open spec fn delete_selected_post(
    pre: ConversationView,
    post: ConversationView,
    ids: Seq<Seq<char>>,
) -> bool {
    &&& post.conversation == pre.conversation
    &&& post.scroll_offset == pre.scroll_offset
    &&& post.has_more_messages == pre.has_more_messages
    &&& post.visible_range == pre.visible_range
    &&& post.last_message_preview == pre.last_message_preview
    &&& (pre.selection is None ==> post == pre && ids.len() == 0)
    &&& (pre.selection matches Some(sel) ==> {
        let lo = sel.spec_low() as int;
        let hi = sel.spec_high() as int;
        let oldm = loaded_msgs(pre);
        &&& post.selection is None
        &&& post.messages is Some
        &&& loaded_msgs(post) == oldm.take(lo) + oldm.skip(hi + 1)
        &&& ids == oldm.subrange(lo, hi + 1).map_values(|m: MessageModel| m.id)
    })
}

impl ConversationView {
    /// Selection indices are always valid, non-empty positions in the loaded
    /// message list.
    pub open spec fn wf(&self) -> bool {
        match self.selection {
            Some(sel) => match self.messages {
                Some(msgs) => msgs@.len() > 0 && sel.anchor < msgs@.len() && sel.cursor
                    < msgs@.len(),
                None => false,
            },
            None => true,
        }
    }

    /// A fresh view over `conversation`: history unloaded, scrolled to the
    /// bottom, with the newest stored message as the list preview.
    pub fn new<S: StorageRepository>(conversation: Conversation, storage: &S) -> (r:
        ConversationView)
        requires
            store_inv(storage.store()),
        ensures
            r.conversation == conversation,
            r.messages is None,
            r.scroll_offset == 0,
            r.has_more_messages,
            r.selection is None,
            r.visible_range is None,
            r.wf(),
            match r.last_message_preview {
                Some(p) => {
                    let elig = eligible_msgs(storage.store(), conversation.id@, None);
                    elig.len() > 0 && p@ == elig.last()
                },
                None => true,
            },
    {
        let preview = match storage.list_messages(conversation.id.as_str(), 1, None) {
            Ok(mut page) => {
                if page.len() > 0 {
                    let ghost elig = eligible_msgs(storage.store(), conversation.id@, None);
                    proof {
                        assert(msgs_view(page@) == newest_page(elig, 1));
                        assert(msgs_view(page@)[0] == elig.last());
                    }
                    let m = page.remove(0);
                    proof {
                        assert(m@ == msgs_view(page@.insert(0, m))[0]);
                    }
                    Some(m)
                } else {
                    None
                }
            },
            Err(_) => None,
        };
        ConversationView {
            conversation,
            messages: None,
            scroll_offset: 0,
            has_more_messages: true,
            selection: None,
            visible_range: None,
            last_message_preview: preview,
        }
    }

    /// Pages in the most recent history once: a no-op when messages are
    /// already loaded or the store fails, otherwise the newest hundred rows.
    pub fn load_messages<S: StorageRepository>(&mut self, storage: &S) -> (r: bool)
        requires
            store_inv(storage.store()),
            old(self).wf(),
        ensures
            final(self).wf(),
            final(self).conversation == old(self).conversation,
            final(self).selection == old(self).selection,
            final(self).visible_range == old(self).visible_range,
            final(self).last_message_preview == old(self).last_message_preview,
            old(self).messages is Some ==> *final(self) == *old(self) && !r,
            !r ==> *final(self) == *old(self),
            r ==> {
                let page = newest_page(
                    eligible_msgs(storage.store(), old(self).conversation.id@, None),
                    100,
                );
                &&& old(self).messages is None
                &&& loaded_msgs(*final(self)) == page
                &&& final(self).messages is Some
                &&& final(self).has_more_messages == (page.len() >= 100)
                &&& final(self).scroll_offset == 0
            },
    {
        if self.messages.is_none() {
            match storage.list_messages(self.conversation.id.as_str(), 100, None) {
                Ok(msgs) => {
                    self.has_more_messages = msgs.len() >= 100;
                    self.messages = Some(msgs);
                    self.scroll_to_bottom();
                    return true;
                },
                Err(_) => {
                    return false;
                },
            }
        }
        false
    }

    /// Scrolls to the newest content: offset zero lines from the bottom.
    pub fn scroll_to_bottom(&mut self)
        ensures
            *final(self) == (ConversationView { scroll_offset: 0, ..*old(self) }),
    {
        self.scroll_offset = 0;
    }

    /// Leaves selection mode.
    pub fn exit_selection_mode(&mut self)
        ensures
            *final(self) == (ConversationView { selection: None, ..*old(self) }),
            final(self).wf(),
    {
        self.selection = None;
    }

    /// Enters selection mode at the centre of the visible range, or at the
    /// newest message when no visible range is known; indices are clamped to
    /// the loaded list. A no-op when nothing is loaded.
    pub fn enter_selection_mode(&mut self)
        requires
            old(self).wf(),
        ensures
            final(self).wf(),
            enter_selection_post(*old(self), *final(self)),
    {
        let len = match &self.messages {
            Some(m) => m.len(),
            None => {
                return ;
            },
        };
        if len == 0 {
            return ;
        }
        let centre = match self.visible_range {
            Some((s, e)) => {
                if s <= e {
                    s + (e - s) / 2
                } else {
                    e + (s - e) / 2
                }
            },
            None => len - 1,
        };
        let idx = if centre < len {
            centre
        } else {
            len - 1
        };
        self.selection = Some(MessageSelection { anchor: idx, cursor: idx });
    }

    /// Moves the cursor one step, clamped to the loaded list; without
    /// `extend` the anchor snaps to the cursor. A no-op when nothing is
    /// loaded or no selection is active.
    pub fn move_selection(&mut self, direction: i32, extend: bool)
        requires
            old(self).wf(),
        ensures
            final(self).wf(),
            move_selection_post(*old(self), *final(self), direction, extend),
    {
        let msg_count = match &self.messages {
            Some(m) => m.len(),
            None => 0,
        };
        if msg_count == 0 {
            return ;
        }
        let sel = match &self.selection {
            Some(s) => *s,
            None => {
                return ;
            },
        };
        let new_cursor = if direction < 0 {
            if sel.cursor > 0 {
                sel.cursor - 1
            } else {
                0
            }
        } else {
            if sel.cursor + 1 < msg_count {
                sel.cursor + 1
            } else {
                msg_count - 1
            }
        };
        self.selection = Some(
            MessageSelection {
                anchor: if extend {
                    sel.anchor
                } else {
                    new_cursor
                },
                cursor: new_cursor,
            },
        );
    }

    /// Moves the cursor one step toward the anchor, shrinking the range.
    pub fn shrink_selection(&mut self)
        requires
            old(self).wf(),
        ensures
            final(self).wf(),
            match old(self).selection {
                Some(sel) => {
                    let new_cursor: int = if sel.cursor > sel.anchor {
                        sel.cursor - 1
                    } else if sel.cursor < sel.anchor {
                        sel.cursor + 1
                    } else {
                        sel.cursor as int
                    };
                    *final(self) == (ConversationView {
                        selection: Some(
                            MessageSelection { anchor: sel.anchor, cursor: new_cursor as usize },
                        ),
                        ..*old(self)
                    })
                },
                None => *final(self) == *old(self),
            },
    {
        let sel = match &self.selection {
            Some(s) => *s,
            None => {
                return ;
            },
        };
        let new_cursor = if sel.cursor > sel.anchor {
            sel.cursor - 1
        } else if sel.cursor < sel.anchor {
            sel.cursor + 1
        } else {
            sel.cursor
        };
        self.selection = Some(MessageSelection { anchor: sel.anchor, cursor: new_cursor });
    }

    /// Records a newly arrived message: it becomes the list preview and, when
    /// history is loaded, is appended and the view scrolls to the bottom.
    pub fn add_message(&mut self, message: Message)
        requires
            old(self).wf(),
        ensures
            final(self).wf(),
            opt_msg_view(final(self).last_message_preview) == Some(message@),
            final(self).conversation == old(self).conversation,
            final(self).has_more_messages == old(self).has_more_messages,
            final(self).selection == old(self).selection,
            final(self).visible_range == old(self).visible_range,
            old(self).messages is None ==> final(self).messages is None
                && final(self).scroll_offset == old(self).scroll_offset,
            old(self).messages is Some ==> loaded_msgs(*final(self))
                == loaded_msgs(*old(self)).push(message@) && final(self).messages is Some
                && final(self).scroll_offset == 0,
    {
        self.last_message_preview = Some(message.duplicate());
        let taken = self.messages.take();
        match taken {
            Some(mut msgs) => {
                proof {
                    lemma_msgs_view_push(msgs@, message);
                }
                msgs.push(message);
                self.messages = Some(msgs);
                self.scroll_offset = 0;
            },
            None => {
                self.messages = None;
            },
        }
    }

    /// Where a remote delete for this conversation is addressed: the peer
    /// (uuid, else number) for a direct conversation, the group id for a
    /// group.
    pub fn remote_delete_target(&self) -> (r: Option<RemoteDeleteTarget>)
        ensures
            match self.conversation.conversation_type {
                ConversationType::Direct => match (
                    self.conversation@.recipient_uuid,
                    self.conversation@.recipient_number,
                ) {
                    (Some(u), _) => r matches Some(RemoteDeleteTarget::Direct(s)) && s@ == u,
                    (None, Some(n)) => r matches Some(RemoteDeleteTarget::Direct(s)) && s@ == n,
                    (None, None) => r is None,
                },
                ConversationType::Group => match self.conversation@.group_id {
                    Some(g) => r matches Some(RemoteDeleteTarget::Group(s)) && s@ == g,
                    None => r is None,
                },
            },
    {
        match self.conversation.conversation_type {
            ConversationType::Direct => {
                match &self.conversation.recipient_uuid {
                    Some(u) => Some(RemoteDeleteTarget::Direct(u.clone())),
                    None => match &self.conversation.recipient_number {
                        Some(n) => Some(RemoteDeleteTarget::Direct(n.clone())),
                        None => None,
                    },
                }
            },
            ConversationType::Group => {
                match &self.conversation.group_id {
                    Some(g) => Some(RemoteDeleteTarget::Group(g.clone())),
                    None => None,
                }
            },
        }
    }

    /// Requests one page of strictly older history and prepends it,
    /// preserving the line-based scroll offset. A no-op when no more history
    /// exists or nothing is loaded; an empty page ends pagination.
    #[verifier::loop_isolation(false)]
    pub fn load_older_messages<S: StorageRepository>(&mut self, storage: &S) -> (r: Vec<String>)
        requires
            store_inv(storage.store()),
            old(self).wf(),
        ensures
            final(self).wf(),
            load_older_post(*old(self), *final(self), storage.store(), strs_view(r@)),
    {
        if !self.has_more_messages {
            return Vec::new();
        }
        let before_ts: i64 = match &self.messages {
            Some(m) => {
                if m.len() == 0 {
                    return Vec::new();
                }
                proof {
                    assert(loaded_msgs(*self)[0] == m@[0]@);
                }
                m[0].timestamp
            },
            None => {
                return Vec::new();
            },
        };
        match storage.list_messages(self.conversation.id.as_str(), 100, Some(before_ts)) {
            Ok(older) => {
                if older.len() == 0 {
                    self.has_more_messages = false;
                    return Vec::new();
                }
                self.has_more_messages = older.len() >= 100;
                let paths = image_paths_of_list(&older);
                let ghost page = msgs_view(older@);
                let mut newv = older;
                let mut rest = self.messages.take().unwrap();
                let ghost rest_seq = rest@;
                newv.append(&mut rest);
                proof {
                    crate::model::lemma_msgs_view_concat(newv@.subrange(0, page.len() as int), rest_seq);
                    assert(newv@.subrange(0, page.len() as int) + rest_seq =~= newv@);
                    assert(msgs_view(newv@) =~= page + msgs_view(rest_seq));
                }
                self.messages = Some(newv);
                paths
            },
            Err(_) => Vec::new(),
        }
    }

    /// The image attachment paths of the loaded messages, newest message
    /// first (the order in which previews are warmed).
    #[verifier::loop_isolation(false)]
    pub fn collect_image_paths(&self) -> (r: Vec<String>)
        ensures
            match self.messages {
                Some(m) => strs_view(r@) == image_paths_rev(msgs_view(m@)),
                None => r@.len() == 0,
            },
    {
        let msgs = match &self.messages {
            Some(m) => m,
            None => {
                return Vec::new();
            },
        };
        let ghost mv = msgs_view(msgs@);
        let mut out: Vec<String> = Vec::new();
        let mut i: usize = msgs.len();
        while i > 0
            invariant
                i <= msgs@.len(),
                strs_view(out@) == image_paths_fwd(mv.reverse().take(msgs@.len() - i)),
            decreases i,
        {
            i = i - 1;
            let ghost k = mv.len() - 1 - i;
            push_msg_image_paths(&msgs[i], &mut out);
            proof {
                assert(mv.reverse().take(k + 1).drop_last() =~= mv.reverse().take(k));
                assert(mv.reverse()[k] == mv[i as int]);
                assert(mv[i as int] == msgs@[i as int]@);
            }
        }
        proof {
            assert(mv.reverse().take(mv.len() as int) =~= mv.reverse());
        }
        out
    }

    /// The timestamps of loaded messages that are incoming and unread.
    #[verifier::loop_isolation(false)]
    pub fn unread_incoming_timestamps(&self) -> (r: Vec<i64>)
        ensures
            match self.messages {
                Some(m) => r@ == unread_incoming_ts(msgs_view(m@)),
                None => r@.len() == 0,
            },
    {
        let msgs = match &self.messages {
            Some(m) => m,
            None => {
                return Vec::new();
            },
        };
        let ghost mv = msgs_view(msgs@);
        let mut out: Vec<i64> = Vec::new();
        let mut i: usize = 0;
        while i < msgs.len()
            invariant
                i <= msgs@.len(),
                out@ == unread_incoming_ts(mv.take(i as int)),
            decreases msgs@.len() - i,
        {
            proof {
                assert(mv.take(i as int + 1).drop_last() =~= mv.take(i as int));
                assert(mv[i as int] == msgs@[i as int]@);
            }
            if !msgs[i].is_read && !msgs[i].is_outgoing {
                out.push(msgs[i].timestamp);
            }
            i = i + 1;
        }
        proof {
            assert(mv.take(mv.len() as int) =~= mv);
        }
        out
    }

    /// The selected messages' texts, one line per message. Attachments read
    /// as their file names, stickers and deletions as placeholders.
    #[verifier::loop_isolation(false)]
    pub fn get_selected_text(&self) -> (r: Option<String>)
        requires
            self.wf(),
        ensures
            match (self.selection, self.messages) {
                (Some(sel), Some(m)) => r matches Some(t) && t@ == joined_lines(
                    msgs_view(m@),
                    sel.spec_low() as int,
                    sel.spec_high() as int,
                ),
                _ => r is None,
            },
    {
        let msgs = match &self.messages {
            Some(m) => m,
            None => {
                return None;
            },
        };
        let sel = match &self.selection {
            Some(s) => *s,
            None => {
                return None;
            },
        };
        let n = msgs.len();
        let (lo, hi) = sel.range();
        let ghost mv = msgs_view(msgs@);
        let mut out = message_text_exec(&msgs[lo]);
        let mut idx: usize = lo + 1;
        while idx <= hi
            invariant
                lo < idx <= hi + 1,
                hi < n,
                n == msgs@.len(),
                out@ == joined_lines(mv, lo as int, idx - 1),
            decreases hi + 1 - idx,
        {
            crate::text::push_char(&mut out, '\n');
            let line = message_text_exec(&msgs[idx]);
            out.append(line.as_str());
            proof {
                assert(mv[idx as int] == msgs@[idx as int]@);
            }
            idx = idx + 1;
        }
        Some(out)
    }

    /// Removes the selected range from the loaded list, clears the
    /// selection, and returns the removed messages' local ids.
    #[verifier::loop_isolation(false)]
    pub fn delete_selected_messages(&mut self) -> (r: Vec<String>)
        requires
            old(self).wf(),
        ensures
            final(self).wf(),
            delete_selected_post(*old(self), *final(self), strs_view(r@)),
    {
        let sel = match &self.selection {
            Some(s) => *s,
            None => {
                return Vec::new();
            },
        };
        let mut msgs = self.messages.take().unwrap();
        let n = msgs.len();
        let (lo, hi) = sel.range();
        let ghost mv = msgs_view(msgs@);
        let mut ids: Vec<String> = Vec::new();
        let mut idx: usize = lo;
        while idx <= hi
            invariant
                lo <= idx <= hi + 1,
                hi < n,
                n == msgs@.len(),
                mv == msgs_view(msgs@),
                strs_view(ids@) =~= mv.subrange(lo as int, idx as int).map_values(
                    |m: MessageModel| m.id,
                ),
            decreases hi + 1 - idx,
        {
            let ghost prev = ids@;
            ids.push(msgs[idx].id.clone());
            proof {
                assert(mv[idx as int] == msgs@[idx as int]@);
                assert(strs_view(ids@) =~= strs_view(prev).push(msgs@[idx as int].id@));
                assert(strs_view(ids@) =~= mv.subrange(lo as int, idx + 1).map_values(
                    |m: MessageModel| m.id,
                ));
            }
            idx = idx + 1;
        }
        let mut tail = msgs.split_off(hi + 1);
        msgs.truncate(lo);
        msgs.append(&mut tail);
        proof {
            crate::model::lemma_msgs_view_concat(
                msgs@.subrange(0, lo as int),
                msgs@.subrange(lo as int, msgs@.len() as int),
            );
            assert(msgs_view(msgs@) =~= mv.take(lo as int) + mv.skip(hi + 1));
        }
        self.messages = Some(msgs);
        self.selection = None;
        ids
    }

    /// The timestamps of the selected messages that this account sent
    /// (candidates for a remote delete).
    #[verifier::loop_isolation(false)]
    pub fn get_selected_outgoing_timestamps(&self) -> (r: Vec<i64>)
        requires
            self.wf(),
        ensures
            match (self.selection, self.messages) {
                (Some(sel), Some(m)) => r@ == outgoing_ts(
                    msgs_view(m@).subrange(sel.spec_low() as int, sel.spec_high() + 1),
                ),
                _ => r@.len() == 0,
            },
    {
        let msgs = match &self.messages {
            Some(m) => m,
            None => {
                return Vec::new();
            },
        };
        let sel = match &self.selection {
            Some(s) => *s,
            None => {
                return Vec::new();
            },
        };
        let n = msgs.len();
        let (lo, hi) = sel.range();
        let ghost mv = msgs_view(msgs@);
        let mut out: Vec<i64> = Vec::new();
        let mut idx: usize = lo;
        while idx <= hi
            invariant
                lo <= idx <= hi + 1,
                hi < n,
                n == msgs@.len(),
                out@ == outgoing_ts(mv.subrange(lo as int, idx as int)),
            decreases hi + 1 - idx,
        {
            proof {
                assert(mv.subrange(lo as int, idx + 1).drop_last() =~= mv.subrange(
                    lo as int,
                    idx as int,
                ));
                assert(mv[idx as int] == msgs@[idx as int]@);
            }
            if msgs[idx].is_outgoing {
                out.push(msgs[idx].timestamp);
            }
            idx = idx + 1;
        }
        out
    }

    /// The locally stored attachment paths of the selected messages.
    #[verifier::loop_isolation(false)]
    pub fn get_selected_attachment_paths(&self) -> (r: Vec<String>)
        requires
            self.wf(),
        ensures
            match (self.selection, self.messages) {
                (Some(sel), Some(m)) => strs_view(r@) == local_paths_fwd(
                    msgs_view(m@).subrange(sel.spec_low() as int, sel.spec_high() + 1),
                ),
                _ => r@.len() == 0,
            },
    {
        let msgs = match &self.messages {
            Some(m) => m,
            None => {
                return Vec::new();
            },
        };
        let sel = match &self.selection {
            Some(s) => *s,
            None => {
                return Vec::new();
            },
        };
        let n = msgs.len();
        let (lo, hi) = sel.range();
        let ghost mv = msgs_view(msgs@);
        let mut out: Vec<String> = Vec::new();
        let mut idx: usize = lo;
        while idx <= hi
            invariant
                lo <= idx <= hi + 1,
                hi < n,
                n == msgs@.len(),
                strs_view(out@) == local_paths_fwd(mv.subrange(lo as int, idx as int)),
            decreases hi + 1 - idx,
        {
            proof {
                assert(mv.subrange(lo as int, idx + 1).drop_last() =~= mv.subrange(
                    lo as int,
                    idx as int,
                ));
                assert(mv[idx as int] == msgs@[idx as int]@);
            }
            push_msg_local_paths(&msgs[idx], &mut out);
            idx = idx + 1;
        }
        out
    }
}

/// Whether an attachment's declared content type names an image.
fn is_image_attachment(att: &AttachmentInfo) -> (r: bool)
    ensures
        r == is_image_ct(att@.content_type),
{
    match &att.content_type {
        Some(ct) => str_starts_with(ct.as_str(), "image/"),
        None => false,
    }
}

/// Appends the image paths of one message's attachments.
#[verifier::loop_isolation(false)]
fn push_msg_image_paths(m: &Message, out: &mut Vec<String>)
    ensures
        strs_view(final(out)@) == strs_view(old(out)@) + image_paths_of_content(m@.content),
{
    match &m.content {
        MessageContent::Attachment { attachments } => {
            let ghost av = attachments@.map_values(|a: AttachmentInfo| a@);
            let ghost base = strs_view(out@);
            let mut j: usize = 0;
            while j < attachments.len()
                invariant
                    j <= attachments@.len(),
                    strs_view(out@) == base + image_paths_of_atts(av.take(j as int)),
                decreases attachments@.len() - j,
            {
                proof {
                    assert(av.take(j as int + 1).drop_last() =~= av.take(j as int));
                    assert(av[j as int] == attachments@[j as int]@);
                }
                if is_image_attachment(&attachments[j]) {
                    match &attachments[j].local_path {
                        Some(p) => {
                            let ghost prev = out@;
                            out.push(p.clone());
                            proof {
                                assert(strs_view(out@) =~= strs_view(prev).push(p@));
                                assert(strs_view(out@) =~= base + image_paths_of_atts(
                                    av.take(j as int + 1),
                                ));
                            }
                        },
                        None => {
                            proof {
                                assert(strs_view(out@) =~= base + image_paths_of_atts(
                                    av.take(j as int + 1),
                                ));
                            }
                        },
                    }
                } else {
                    proof {
                        assert(strs_view(out@) =~= base + image_paths_of_atts(
                            av.take(j as int + 1),
                        ));
                    }
                }
                j = j + 1;
            }
            proof {
                assert(av.take(av.len() as int) =~= av);
                assert(strs_view(out@) =~= base + image_paths_of_atts(av));
            }
        },
        _ => {
            proof {
                assert(strs_view(out@) =~= strs_view(out@) + image_paths_of_content(m@.content));
            }
        },
    }
}

/// Appends every locally stored attachment path of one message.
#[verifier::loop_isolation(false)]
fn push_msg_local_paths(m: &Message, out: &mut Vec<String>)
    ensures
        strs_view(final(out)@) == strs_view(old(out)@) + content_local_paths(m@.content),
{
    match &m.content {
        MessageContent::Attachment { attachments } => {
            let ghost av = attachments@.map_values(|a: AttachmentInfo| a@);
            let ghost base = strs_view(out@);
            let mut j: usize = 0;
            while j < attachments.len()
                invariant
                    j <= attachments@.len(),
                    strs_view(out@) == base + att_local_paths(av.take(j as int)),
                decreases attachments@.len() - j,
            {
                proof {
                    assert(av.take(j as int + 1).drop_last() =~= av.take(j as int));
                    assert(av[j as int] == attachments@[j as int]@);
                }
                match &attachments[j].local_path {
                    Some(p) => {
                        let ghost prev = out@;
                        out.push(p.clone());
                        proof {
                            assert(strs_view(out@) =~= strs_view(prev).push(p@));
                            assert(strs_view(out@) =~= base + att_local_paths(
                                av.take(j as int + 1),
                            ));
                        }
                    },
                    None => {
                        proof {
                            assert(strs_view(out@) =~= base + att_local_paths(
                                av.take(j as int + 1),
                            ));
                        }
                    },
                }
                j = j + 1;
            }
            proof {
                assert(av.take(av.len() as int) =~= av);
                assert(strs_view(out@) =~= base + att_local_paths(av));
            }
        },
        _ => {
            proof {
                assert(strs_view(out@) =~= strs_view(out@) + content_local_paths(m@.content));
            }
        },
    }
}

/// The image paths of a message list, oldest first.
#[verifier::loop_isolation(false)]
fn image_paths_of_list(msgs: &Vec<Message>) -> (r: Vec<String>)
    ensures
        strs_view(r@) == image_paths_fwd(msgs_view(msgs@)),
{
    let ghost mv = msgs_view(msgs@);
    let mut out: Vec<String> = Vec::new();
    let mut i: usize = 0;
    while i < msgs.len()
        invariant
            i <= msgs@.len(),
            strs_view(out@) == image_paths_fwd(mv.take(i as int)),
        decreases msgs@.len() - i,
    {
        proof {
            assert(mv.take(i as int + 1).drop_last() =~= mv.take(i as int));
            assert(mv[i as int] == msgs@[i as int]@);
        }
        push_msg_image_paths(&msgs[i], &mut out);
        i = i + 1;
    }
    proof {
        assert(mv.take(mv.len() as int) =~= mv);
    }
    out
}

/// How one message reads in copied text.
#[verifier::loop_isolation(false)]
fn message_text_exec(m: &Message) -> (r: String)
    ensures
        r@ == message_text(m@),
{
    match &m.content {
        MessageContent::Text { body } => body.clone(),
        MessageContent::Attachment { attachments } => {
            let ghost av = attachments@.map_values(|a: AttachmentInfo| a@);
            let mut out = String::new();
            let mut j: usize = 0;
            while j < attachments.len()
                invariant
                    j <= attachments@.len(),
                    out@ == joined_names(av.take(j as int)),
                decreases attachments@.len() - j,
            {
                proof {
                    assert(av.take(j as int + 1).drop_last() =~= av.take(j as int));
                    assert(av[j as int] == attachments@[j as int]@);
                    assert(av.take(j as int + 1)[0] == av[0]);
                }
                let name: String = match &attachments[j].filename {
                    Some(f) => f.clone(),
                    None => "[attachment]".to_owned(),
                };
                if j > 0 {
                    out.append(", ");
                }
                out.append(name.as_str());
                j = j + 1;
            }
            proof {
                assert(av.take(av.len() as int) =~= av);
            }
            out
        },
        MessageContent::Sticker { pack_id, sticker_id } => "[Sticker]".to_owned(),
        MessageContent::RemoteDeleted => "[Deleted]".to_owned(),
    }
}

/// Law: whenever a selection is active, it is a valid, non-empty inclusive
/// index range into the currently loaded messages.
pub proof fn lemma_selection_range_valid(v: ConversationView)
    requires
        v.wf(),
        v.selection is Some,
    ensures
        v.messages is Some,
        loaded_msgs(v).len() > 0,
        0 <= v.selection->0.spec_low(),
        v.selection->0.spec_low() <= v.selection->0.spec_high(),
        v.selection->0.spec_high() < loaded_msgs(v).len(),
{
}

/// Law: backward pagination preserves order. Prepending a page of strictly
/// older, strictly ascending rows to a strictly ascending list yields a list
/// that is still strictly ascending by timestamp and holds no duplicate
/// signal ids. (Rows sharing a timestamp cannot satisfy the hypotheses; the
/// store orders equal timestamps arbitrarily.)
pub proof fn lemma_paging_preserves_order(page: Seq<MessageModel>, olds: Seq<MessageModel>)
    requires
        strictly_ascending_by_timestamp(page),
        strictly_ascending_by_timestamp(olds),
        olds.len() > 0 ==> forall|i: int|
            0 <= i < page.len() ==> (#[trigger] page[i]).timestamp < olds[0].timestamp,
    ensures
        strictly_ascending_by_timestamp(page + olds),
        distinct_signal_ids(page + olds),
{
    let all = page + olds;
    assert forall|i: int, j: int|
        0 <= i < j < all.len() implies #[trigger] all[i].timestamp < #[trigger] all[j].timestamp by {
        if i < page.len() && j < page.len() {
            assert(all[i] == page[i]);
            assert(all[j] == page[j]);
        } else if i < page.len() {
            assert(all[i] == page[i]);
            assert(all[j] == olds[j - page.len()]);
            assert(page[i].timestamp < olds[0].timestamp);
            if j - page.len() > 0 {
                assert(olds[0].timestamp < olds[j - page.len()].timestamp);
            }
        } else {
            assert(all[i] == olds[i - page.len()]);
            assert(all[j] == olds[j - page.len()]);
        }
    }
    assert forall|i: int, j: int|
        0 <= i < j < all.len() implies !(#[trigger] all[i].sender_uuid
        == #[trigger] all[j].sender_uuid && all[i].timestamp == all[j].timestamp) by {
        assert(all[i].timestamp < all[j].timestamp);
    }
}

} // verus!
